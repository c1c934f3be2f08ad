//! Identity of a physical key.
use vstd::prelude::*;
use vstd::string::StringExecFns;
use crate::text::{dec, hex, push_decimal, push_hex, zero_pad};

verus! {

/// Number of slots in the tables indexed by key ([`KeyId::index`]).
pub const KEY_TABLE_SIZE: usize = 256;

/// A physical key: set-1 scan code plus the E0 ("extended") prefix.
///
/// The scan code keeps the key's *position*, independent of the layout;
/// `extended` tells apart keys sharing a scan code (arrow up vs. numpad 8).
#[derive(Clone, Copy, Debug, PartialEq, Eq, Structural, PartialOrd, Ord, Hash)]
pub struct KeyId {
    pub scan: u16,
    pub extended: bool,
}

/// Slot of a mappable key: the scan code in the low seven bits, the E0
/// prefix in bit seven.
pub open spec fn key_slot(k: KeyId) -> int {
    k.scan + if k.extended { 128int } else { 0int }
}

/// The key stored in slot `i` (for `0 <= i < 256`).
pub open spec fn slot_key(i: int) -> KeyId {
    KeyId { scan: (i % 128) as u16, extended: i >= 128 }
}

/// Slots that belong to some mappable key.
pub open spec fn slot_is_key(i: int) -> bool {
    0 <= i < 256 && i % 128 != 0
}

proof fn lemma_or_high_bit(s: u16)
    requires
        s < 128,
    ensures
        (s as usize | 0x80usize) == s as usize + 128,
        (s as usize | 0usize) == s as usize,
{
    let x: usize = s as usize;
    assert(x < 128usize ==> (x | 0x80usize) == x + 128usize) by (bit_vector);
    assert((x | 0usize) == x) by (bit_vector);
}

proof fn lemma_split_slot(i: usize)
    ensures
        (i & 0x7F) == i % 128,
        (i & 0x80 != 0) == ((i / 128) % 2 == 1),
{
    assert((i & 0x7Fusize) == i % 128usize) by (bit_vector);
    assert(((i & 0x80usize) != 0usize) == ((i / 128usize) % 2usize == 1usize)) by (bit_vector);
}

/// How a key is shown: its scan code as `0x11`, with `E0 ` in front for
/// the extended keys.
pub open spec fn key_text(k: KeyId) -> Seq<char> {
    (if k.extended {
        seq!['E', '0', ' ']
    } else {
        Seq::empty()
    }) + seq!['0', 'x'] + zero_pad(hex(k.scan as nat), 2)
}

impl KeyId {
    /// A key without the E0 prefix.
    pub fn new(scan: u16) -> (k: KeyId)
        ensures
            k == (KeyId { scan, extended: false }),
    {
        KeyId { scan, extended: false }
    }

    /// An extended key (E0 prefix): arrows, right Ctrl/Alt, numpad Enter…
    pub fn ext(scan: u16) -> (k: KeyId)
        ensures
            k == (KeyId { scan, extended: true }),
    {
        KeyId { scan, extended: true }
    }

    pub open spec fn spec_is_mappable(self) -> bool {
        1 <= self.scan <= 0x7F
    }

    /// Can the key be bound to an action (or be the toggle key)?
    ///
    /// Set-1 make codes lie in 0x01–0x7F. Keys without a scan code
    /// (media keys, scan 0) and the fake left Ctrl that AltGr sends
    /// (scan 0x21D) fall outside and are never mapped.
    #[verifier::when_used_as_spec(spec_is_mappable)]
    pub fn is_mappable(self) -> (r: bool)
        ensures
            r == self.spec_is_mappable(),
    {
        self.scan >= 0x01 && self.scan <= 0x7F
    }

    /// Slot in the 256-entry tables: the scan code in the low seven bits,
    /// the E0 prefix in the top bit. `None` for keys that cannot be mapped.
    pub fn index(self) -> (r: Option<usize>)
        ensures
            r == (if self.spec_is_mappable() {
                Some(key_slot(self) as usize)
            } else {
                None::<usize>
            }),
    {
        if self.is_mappable() {
            proof {
                lemma_or_high_bit(self.scan);
            }
            Some(self.scan as usize | if self.extended { 0x80 } else { 0 })
        } else {
            None
        }
    }

    /// Inverse of [`KeyId::index`]. Bits above the slot are ignored: the
    /// low seven bits give the scan code, bit seven the E0 prefix.
    pub fn from_index(i: usize) -> (k: KeyId)
        ensures
            k == (KeyId { scan: (i % 128) as u16, extended: (i / 128) % 2 == 1 }),
            i < KEY_TABLE_SIZE ==> k == slot_key(i as int),
    {
        proof {
            lemma_split_slot(i);
        }
        KeyId { scan: (i & 0x7F) as u16, extended: i & 0x80 != 0 }
    }

    /// Escape: cancels binding, can never be the toggle key.
    pub fn esc() -> (k: KeyId)
        ensures
            k == (KeyId { scan: 0x01, extended: false }),
    {
        KeyId::new(0x01)
    }

    /// Scroll Lock, the default toggle key.
    pub fn scroll_lock() -> (k: KeyId)
        ensures
            k == (KeyId { scan: 0x46, extended: false }),
    {
        KeyId::new(0x46)
    }

    /// The key as text (`0x11`, `E0 0x48`).
    pub fn to_text(&self) -> (s: String)
        ensures
            s@ == key_text(*self),
    {
        let mut s = String::new();
        if self.extended {
            s.append("E0 ");
        }
        s.append("0x");
        push_hex(&mut s, self.scan as u64, 2);
        proof {
            reveal_strlit("E0 ");
            reveal_strlit("0x");
            assert(s@ =~= key_text(*self));
        }
        s
    }
}

/// The key as a debug listing writes it: `KeyId { scan: 17, extended: false }`.
pub open spec fn key_debug_text(k: KeyId) -> Seq<char> {
    "KeyId { scan: "@ + dec(k.scan as nat) + ", extended: "@ + (if k.extended {
        "true"@
    } else {
        "false"@
    }) + " }"@
}

impl KeyId {
    /// The key as a debug listing writes it (field by field, scan code
    /// in decimal).
    pub fn debug_text(&self) -> (s: String)
        ensures
            s@ == key_debug_text(*self),
    {
        let mut s = String::new();
        s.append("KeyId { scan: ");
        push_decimal(&mut s, self.scan as u128, 0);
        s.append(", extended: ");
        if self.extended {
            s.append("true");
        } else {
            s.append("false");
        }
        s.append(" }");
        proof {
            reveal_strlit("KeyId { scan: ");
            reveal_strlit(", extended: ");
            reveal_strlit("true");
            reveal_strlit("false");
            reveal_strlit(" }");
            assert(s@ =~= key_debug_text(*self));
        }
        s
    }
}

/// Slots and mappable keys are in one-to-one correspondence: every mappable
/// key has a slot that is a key slot, the key stored there is the key itself,
/// and two different keys never share a slot.
pub proof fn lemma_slot_bijection(k1: KeyId, k2: KeyId, i: int)
    ensures
        k1.spec_is_mappable() ==> slot_is_key(key_slot(k1)) && slot_key(key_slot(k1)) == k1,
        k1.spec_is_mappable() && k2.spec_is_mappable() && key_slot(k1) == key_slot(k2) ==> k1 == k2,
        slot_is_key(i) ==> slot_key(i).spec_is_mappable() && key_slot(slot_key(i)) == i,
{
}

} // verus!
