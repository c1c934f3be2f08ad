//! Key-to-action bindings plus the toggle key, with validation.
//!
//! Invariant: a [`Mapping`] is ALWAYS valid. It cannot be built otherwise —
//! [`Mapping::new`] returns errors, and the updating methods make a change
//! either whole or not at all. The engine never has to ask.
use vstd::prelude::*;
use crate::action::{Action, PadButton, StickDir, action_text};
use crate::key::{key_debug_text, key_text};
use crate::text::owned;
use vstd::string::StringExecFns;
use crate::key::{KeyId, KEY_TABLE_SIZE, key_slot, slot_is_key, slot_key};
use crate::table::{
    table_wf,
    table_view,
    count_some,
    lemma_table_len,
    lemma_table_set,
    lemma_table_clear,
    lemma_table_at,
    lemma_table_slot,
};

verus! {

broadcast use vstd::seq_lib::group_seq_properties, vstd::set::group_set_axioms;

/// Why a mapping is not valid.
#[derive(Clone, Copy, Debug, PartialEq, Eq, Structural, Hash)]
pub enum MappingError {
    /// No key is mapped — in Gamepad mode nothing would work.
    Empty,
    /// The change would remove the last binding (see [`MappingError::Empty`]).
    WouldBeEmpty,
    /// One key on two different actions: a press could not be decided.
    DuplicateKey { key: KeyId, first: Action, second: Action },
    /// The toggle key is also bound to an action, which would never fire.
    ToggleKeyMapped { key: KeyId, action: Action },
    /// Escape cancels binding, so it cannot be the toggle key.
    ToggleIsEscape,
    /// The key cannot be mapped ([`KeyId::is_mappable`]); `action` is
    /// `None` for the toggle key.
    Unmappable { key: KeyId, action: Option<Action> },
    /// The key being unbound has no binding.
    NotMapped { key: KeyId },
}

/// What a mapping stands for: the toggle key and the bindings.
pub struct MappingView {
    pub toggle: KeyId,
    pub binds: Map<KeyId, Action>,
}

/// Complete layout: bindings key → action, and the toggle key.
///
/// Several keys on one action are allowed; one key on two actions is not,
/// hence a table by key. The table never allocates on lookup or update
/// (binding happens inside the keyboard hook).
#[derive(Clone, PartialEq, Eq, Hash, Debug)]
pub struct Mapping {
    toggle: KeyId,
    keys: Vec<Option<Action>>,
}

pub open spec fn esc_key() -> KeyId {
    KeyId { scan: 0x01, extended: false }
}

/// Errors about the toggle key alone.
pub open spec fn toggle_errors(toggle: KeyId) -> Seq<MappingError> {
    (if !toggle.spec_is_mappable() {
        seq![MappingError::Unmappable { key: toggle, action: None }]
    } else {
        Seq::empty()
    }) + (if toggle == esc_key() {
        seq![MappingError::ToggleIsEscape]
    } else {
        Seq::empty()
    })
}

/// Reading the bindings in order: the bindings kept, the errors found, and
/// whether some binding was rejected (unmappable key, or the toggle key).
/// A key listed twice with the same action is merged, not an error; a key
/// listed with a second action keeps the first one.
pub open spec fn scan_bindings(toggle: KeyId, bs: Seq<(KeyId, Action)>) -> (
    Map<KeyId, Action>,
    Seq<MappingError>,
    bool,
)
    decreases bs.len(),
{
    if bs.len() == 0 {
        (Map::empty(), Seq::empty(), false)
    } else {
        let (m, errs, rejected) = scan_bindings(toggle, bs.drop_last());
        let (key, action) = bs.last();
        if !key.spec_is_mappable() {
            (m, errs.push(MappingError::Unmappable { key, action: Some(action) }), true)
        } else if key == toggle {
            (m, errs.push(MappingError::ToggleKeyMapped { key, action }), true)
        } else if m.contains_key(key) {
            if m[key] != action {
                (m, errs.push(MappingError::DuplicateKey { key, first: m[key], second: action }), rejected)
            } else {
                (m, errs, rejected)
            }
        } else {
            (m.insert(key, action), errs, rejected)
        }
    }
}

/// All errors of a candidate mapping, in the order they are found. Empty is
/// reported only when no binding fell out for another reason; an error of
/// the toggle key does not hide it.
pub open spec fn new_errors(toggle: KeyId, bs: Seq<(KeyId, Action)>) -> Seq<MappingError> {
    let (m, errs, rejected) = scan_bindings(toggle, bs);
    toggle_errors(toggle) + errs + if !rejected && m.dom().len() == 0 {
        seq![MappingError::Empty]
    } else {
        Seq::empty()
    }
}

/// A valid mapping: mappable toggle key that is not Escape and not bound,
/// only mappable keys bound, at least one binding.
pub open spec fn valid_view(v: MappingView) -> bool {
    &&& v.toggle.spec_is_mappable()
    &&& v.toggle != esc_key()
    &&& !v.binds.contains_key(v.toggle)
    &&& v.binds.dom().finite()
    &&& v.binds.dom().len() > 0
    &&& forall|k: KeyId| #[trigger] v.binds.contains_key(k) ==> k.spec_is_mappable()
}

impl View for Mapping {
    type V = MappingView;

    closed spec fn view(&self) -> MappingView {
        MappingView { toggle: self.toggle, binds: table_view(self.keys@) }
    }
}

proof fn lemma_scan_rejected(toggle: KeyId, bs: Seq<(KeyId, Action)>)
    ensures
        scan_bindings(toggle, bs).2 ==> scan_bindings(toggle, bs).1.len() > 0,
    decreases bs.len(),
{
    if bs.len() > 0 {
        lemma_scan_rejected(toggle, bs.drop_last());
    }
}

proof fn lemma_scan_keys(toggle: KeyId, bs: Seq<(KeyId, Action)>)
    ensures
        forall|k: KeyId| #[trigger]
            scan_bindings(toggle, bs).0.contains_key(k) ==> k.spec_is_mappable() && k != toggle,
        scan_bindings(toggle, bs).0.dom().finite(),
    decreases bs.len(),
{
    if bs.len() > 0 {
        lemma_scan_keys(toggle, bs.drop_last());
    }
}

impl Mapping {
    /// Well-formed: the table stands for a valid mapping.
    pub closed spec fn wf(&self) -> bool {
        &&& table_wf(self.keys@)
        &&& valid_view(self@)
    }

    /// Every well-formed mapping is valid.
    pub proof fn lemma_wf_valid(&self)
        requires
            self.wf(),
        ensures
            valid_view(self@),
    {
    }

    /// Builds and validates a mapping. Returns ALL errors found, so that the
    /// window can show them at once. The same key listed twice with the
    /// same action is not an error.
    pub fn new(toggle: KeyId, bindings: &[(KeyId, Action)]) -> (r: Result<Mapping, Vec<MappingError>>)
        ensures
            match r {
                Ok(m) => {
                    &&& new_errors(toggle, bindings@).len() == 0
                    &&& m.wf()
                    &&& m@.toggle == toggle
                    &&& m@.binds == scan_bindings(toggle, bindings@).0
                },
                Err(e) => e@ == new_errors(toggle, bindings@) && e@.len() > 0,
            },
    {
        let mut errors: Vec<MappingError> = Vec::new();
        if !toggle.is_mappable() {
            errors.push(MappingError::Unmappable { key: toggle, action: None });
        }
        if toggle == KeyId::esc() {
            errors.push(MappingError::ToggleIsEscape);
        }
        let mut keys: Vec<Option<Action>> = Vec::new();
        for j in 0..KEY_TABLE_SIZE
            invariant
                keys@.len() == j,
                forall|x: int| 0 <= x < j ==> keys@[x] is None,
        {
            keys.push(None);
        }
        let ghost prefix = errors@;
        proof {
            assert(prefix == toggle_errors(toggle));
            assert(table_view(keys@) =~= Map::<KeyId, Action>::empty());
            assert(bindings@.take(0) =~= Seq::<(KeyId, Action)>::empty());
        }
        let mut rejected_binding = false;
        let n = bindings.len();
        for i in 0..n
            invariant
                n == bindings@.len(),
                table_wf(keys@),
                table_view(keys@) == scan_bindings(toggle, bindings@.take(i as int)).0,
                errors@ == prefix + scan_bindings(toggle, bindings@.take(i as int)).1,
                rejected_binding == scan_bindings(toggle, bindings@.take(i as int)).2,
                prefix == toggle_errors(toggle),
        {
            let (key, action) = bindings[i];
            proof {
                assert(bindings@.take(i + 1).drop_last() =~= bindings@.take(i as int));
                assert(bindings@.take(i + 1).last() == bindings@[i as int]);
            }
            match key.index() {
                None => {
                    errors.push(MappingError::Unmappable { key, action: Some(action) });
                    rejected_binding = true;
                },
                Some(slot) => {
                    proof {
                        lemma_table_at(keys@, key);
                    }
                    if key == toggle {
                        errors.push(MappingError::ToggleKeyMapped { key, action });
                        rejected_binding = true;
                    } else {
                        match keys[slot] {
                            Some(first) => {
                                if first != action {
                                    errors.push(
                                        MappingError::DuplicateKey { key, first, second: action },
                                    );
                                }
                            },
                            None => {
                                proof {
                                    assert(slot_key(slot as int) == key);
                                    lemma_table_set(keys@, slot as int, action);
                                }
                                keys.set(slot, Some(action));
                            },
                        }
                    }
                },
            }
        }
        proof {
            assert(bindings@.take(n as int) =~= bindings@);
            lemma_table_len(keys@);
            lemma_scan_keys(toggle, bindings@);
            lemma_scan_rejected(toggle, bindings@);
        }
        // Empty is reported only when no binding fell out for another
        // reason — the toggle key's errors do not hide it, though.
        if !rejected_binding && count_filled(&keys) == 0 {
            errors.push(MappingError::Empty);
        }
        if errors.len() == 0 {
            let m = Mapping { toggle, keys };
            proof {
                assert(toggle_errors(toggle).len() == 0);
                assert(toggle.spec_is_mappable());
                assert(toggle != esc_key());
                assert(!rejected_binding);
                assert(m@.binds.dom().len() > 0);
            }
            Ok(m)
        } else {
            Err(errors)
        }
    }

    /// The toggle key Keyboard ↔ Gamepad.
    pub fn toggle_key(&self) -> (k: KeyId)
        ensures
            k == self@.toggle,
    {
        self.toggle
    }

    /// The action bound to a key.
    pub fn action_for(&self, key: KeyId) -> (r: Option<Action>)
        requires
            self.wf(),
        ensures
            r == (if self@.binds.contains_key(key) {
                Some(self@.binds[key])
            } else {
                None::<Action>
            }),
    {
        match key.index() {
            Some(i) => {
                proof {
                    lemma_table_at(self.keys@, key);
                }
                self.keys[i]
            },
            None => None,
        }
    }

    /// All bindings, ordered by slot: plain keys by scan code, then the
    /// extended (E0) ones.
    pub fn bindings(&self) -> (r: Vec<(KeyId, Action)>)
        requires
            self.wf(),
        ensures
            forall|i: int|
                0 <= i < r@.len() ==> #[trigger] self@.binds.contains_key(r@[i].0)
                    && self@.binds[r@[i].0] == r@[i].1,
            forall|k: KeyId|
                #[trigger] self@.binds.contains_key(k) ==> exists|i: int|
                    0 <= i < r@.len() && r@[i].0 == k,
            forall|i: int, j: int|
                0 <= i < j < r@.len() ==> key_slot(r@[i].0) < key_slot(r@[j].0),
    {
        let mut r: Vec<(KeyId, Action)> = Vec::new();
        let mut i: usize = 0;
        while i < KEY_TABLE_SIZE
            invariant
                self.wf(),
                i <= KEY_TABLE_SIZE,
                forall|x: int|
                    0 <= x < r@.len() ==> self@.binds.contains_key(#[trigger] r@[x].0)
                        && self@.binds[r@[x].0] == r@[x].1 && key_slot(r@[x].0) < i,
                forall|k: KeyId|
                    #[trigger] self@.binds.contains_key(k) && key_slot(k) < i ==> exists|x: int|
                        0 <= x < r@.len() && r@[x].0 == k,
                forall|x: int, y: int|
                    0 <= x < y < r@.len() ==> key_slot(#[trigger] r@[x].0) < key_slot(
                        #[trigger] r@[y].0,
                    ),
            decreases KEY_TABLE_SIZE - i,
        {
            let ghost old_r = r@;
            if let Some(a) = self.keys[i] {
                let k = KeyId::from_index(i);
                proof {
                    lemma_table_slot(self.keys@, i as int);
                    assert(k == slot_key(i as int));
                    assert(key_slot(k) == i);
                    assert(self@.binds.contains_key(k));
                    assert(self@.binds[k] == a);
                }
                r.push((k, a));
                proof {
                    assert(r@[r@.len() - 1] == (k, a));
                    assert forall|x: int|
                        0 <= x < r@.len() implies self@.binds.contains_key(#[trigger] r@[x].0)
                            && self@.binds[r@[x].0] == r@[x].1 && key_slot(r@[x].0) < i + 1 by {
                        if x < old_r.len() {
                            assert(r@[x] == old_r[x]);
                        }
                    }
                    assert forall|x: int, y: int|
                        0 <= x < y < r@.len() implies key_slot(#[trigger] r@[x].0) < key_slot(
                            #[trigger] r@[y].0,
                        ) by {
                        assert(r@[x] == old_r[x]);
                        if y < old_r.len() {
                            assert(r@[y] == old_r[y]);
                        }
                    }
                    assert forall|k2: KeyId|
                        #[trigger] self@.binds.contains_key(k2) && key_slot(k2) < i + 1 implies exists|x: int|
                        0 <= x < r@.len() && r@[x].0 == k2 by {
                        if key_slot(k2) == i {
                            crate::key::lemma_slot_bijection(k2, k, i as int);
                            assert(r@[r@.len() - 1].0 == k2);
                        } else {
                            let x = choose|x: int| 0 <= x < old_r.len() && old_r[x].0 == k2;
                            assert(r@[x] == old_r[x]);
                        }
                    }
                }
            } else {
                proof {
                    assert forall|k2: KeyId|
                        #[trigger] self@.binds.contains_key(k2) && key_slot(k2) < i + 1 implies exists|x: int|
                        0 <= x < r@.len() && r@[x].0 == k2 by {
                        lemma_table_at(self.keys@, k2);
                        if key_slot(k2) == i {
                            assert(false);
                        }
                    }
                }
            }
            i = i + 1;
        }
        proof {
            assert forall|k: KeyId| #[trigger] self@.binds.contains_key(k) implies exists|x: int|
                0 <= x < r@.len() && r@[x].0 == k by {
                assert(key_slot(k) < 256);
            }
        }
        r
    }

    /// The keys of an action (there may be several), ordered by slot.
    pub fn keys_for(&self, action: Action) -> (r: Vec<KeyId>)
        requires
            self.wf(),
        ensures
            forall|i: int|
                0 <= i < r@.len() ==> #[trigger] self@.binds.contains_key(r@[i])
                    && self@.binds[r@[i]] == action,
            forall|k: KeyId|
                #[trigger] self@.binds.contains_key(k) && self@.binds[k] == action ==> r@.contains(k),
            forall|i: int, j: int| 0 <= i < j < r@.len() ==> key_slot(r@[i]) < key_slot(r@[j]),
    {
        let all = self.bindings();
        let mut r: Vec<KeyId> = Vec::new();
        let mut i: usize = 0;
        while i < all.len()
            invariant
                i <= all@.len(),
                forall|x: int|
                    0 <= x < all@.len() ==> #[trigger] self@.binds.contains_key(all@[x].0)
                        && self@.binds[all@[x].0] == all@[x].1,
                forall|x: int, y: int|
                    0 <= x < y < all@.len() ==> key_slot(all@[x].0) < key_slot(all@[y].0),
                forall|x: int|
                    0 <= x < r@.len() ==> self@.binds.contains_key(#[trigger] r@[x])
                        && self@.binds[r@[x]] == action,
                forall|x: int| 0 <= x < i && all@[x].1 == action ==> r@.contains(#[trigger] all@[x].0),
                forall|x: int, y: int| 0 <= x < y < r@.len() ==> key_slot(r@[x]) < key_slot(r@[y]),
                forall|x: int| 0 <= x < r@.len() ==> exists|y: int| 0 <= y < i && all@[y].0 == #[trigger] r@[x],
            decreases all@.len() - i,
        {
            let (k, a) = all[i];
            let ghost old_r = r@;
            if a == action {
                proof {
                    assert forall|x: int| 0 <= x < r@.len() implies key_slot(#[trigger] r@[x]) < key_slot(k) by {
                        let y = choose|y: int| 0 <= y < i && all@[y].0 == r@[x];
                    }
                }
                proof {
                    assert(a == action);
                    assert(k == all@[i as int].0);
                    assert(self@.binds.contains_key(all@[i as int].0));
                    assert(self@.binds[k] == action);
                }
                r.push(k);
                proof {
                    assert(r@[r@.len() - 1] == k);
                    assert forall|x: int| 0 <= x < r@.len() implies self@.binds.contains_key(#[trigger] r@[x])
                        && self@.binds[r@[x]] == action by {
                        if x < old_r.len() {
                            assert(r@[x] == old_r[x]);
                        }
                    }
                    assert forall|x: int| 0 <= x < r@.len() implies exists|y: int| 0 <= y < i + 1 && all@[y].0 == #[trigger] r@[x] by {
                        if x == r@.len() - 1 {
                            assert(all@[i as int].0 == r@[x]);
                        } else {
                            assert(r@[x] == old_r[x]);
                            let y = choose|y: int| 0 <= y < i && all@[y].0 == old_r[x];
                        }
                    }
                    assert forall|x: int| 0 <= x < i + 1 && all@[x].1 == action implies r@.contains(#[trigger] all@[x].0) by {
                        if x < i {
                            assert(old_r.contains(all@[x].0));
                            let j = choose|j: int| 0 <= j < old_r.len() && old_r[j] == all@[x].0;
                            assert(r@[j] == old_r[j]);
                        } else {
                            assert(r@[r@.len() - 1] == all@[x].0);
                        }
                    }
                }
            } else {
                proof {
                    assert forall|x: int| 0 <= x < r@.len() implies exists|y: int| 0 <= y < i + 1 && all@[y].0 == #[trigger] r@[x] by {
                        let y = choose|y: int| 0 <= y < i && all@[y].0 == r@[x];
                    }
                    assert forall|x: int| 0 <= x < r@.len() implies self@.binds.contains_key(#[trigger] r@[x])
                        && self@.binds[r@[x]] == action by {
                        assert(r@[x] == old_r[x]);
                    }
                }
            }
            i = i + 1;
        }
        proof {
            assert forall|k: KeyId| #[trigger] self@.binds.contains_key(k) && self@.binds[k] == action implies r@.contains(k) by {
                let x = choose|x: int| 0 <= x < all@.len() && all@[x].0 == k;
            }
        }
        r
    }

    /// Number of bindings.
    pub fn len(&self) -> (n: usize)
        requires
            self.wf(),
        ensures
            n == self@.binds.dom().len(),
    {
        proof {
            lemma_table_len(self.keys@);
        }
        count_filled(&self.keys)
    }

    /// Always `false` — an empty mapping cannot be built. Here for the
    /// convention that goes with `len()`.
    pub fn is_empty(&self) -> (r: bool)
        requires
            self.wf(),
        ensures
            r == (self@.binds.dom().len() == 0),
            !r,
    {
        self.len() == 0
    }

    /// Binds the key to the action (next to other keys of that action). If
    /// the key belonged to ANOTHER action, the binding moves and the former
    /// action is returned — one key on two actions is not allowed.
    /// A refused change leaves the mapping as it was.
    pub fn bind(&mut self, key: KeyId, action: Action) -> (r: Result<Option<Action>, MappingError>)
        requires
            old(self).wf(),
        ensures
            final(self).wf(),
            key == old(self)@.toggle ==> r == Err::<Option<Action>, MappingError>(
                MappingError::ToggleKeyMapped { key, action },
            ),
            key != old(self)@.toggle && !key.spec_is_mappable() ==> r == Err::<
                Option<Action>,
                MappingError,
            >(MappingError::Unmappable { key, action: Some(action) }),
            r is Err ==> final(self)@ == old(self)@,
            key != old(self)@.toggle && key.spec_is_mappable() ==> {
                &&& r == Ok::<Option<Action>, MappingError>(
                    if old(self)@.binds.contains_key(key) && old(self)@.binds[key] != action {
                        Some(old(self)@.binds[key])
                    } else {
                        None
                    },
                )
                &&& final(self)@.toggle == old(self)@.toggle
                &&& final(self)@.binds == old(self)@.binds.insert(key, action)
            },
    {
        if key == self.toggle {
            return Err(MappingError::ToggleKeyMapped { key, action });
        }
        match key.index() {
            None => Err(MappingError::Unmappable { key, action: Some(action) }),
            Some(slot) => {
                proof {
                    lemma_table_at(self.keys@, key);
                    lemma_table_set(self.keys@, slot as int, action);
                    lemma_table_len(self.keys@.update(slot as int, Some(action)));
                    assert(slot_key(slot as int) == key);
                }
                let previous = self.keys[slot];
                self.keys.set(slot, Some(action));
                match previous {
                    Some(p) => {
                        if p != action {
                            Ok(Some(p))
                        } else {
                            Ok(None)
                        }
                    },
                    None => Ok(None),
                }
            },
        }
    }

    /// Removes the binding of a key. The last binding cannot be removed.
    pub fn unbind(&mut self, key: KeyId) -> (r: Result<Action, MappingError>)
        requires
            old(self).wf(),
        ensures
            final(self).wf(),
            !old(self)@.binds.contains_key(key) ==> r == Err::<Action, MappingError>(
                MappingError::NotMapped { key },
            ),
            old(self)@.binds.contains_key(key) && old(self)@.binds.dom().len() == 1 ==> r == Err::<
                Action,
                MappingError,
            >(MappingError::WouldBeEmpty),
            r is Err ==> final(self)@ == old(self)@,
            old(self)@.binds.contains_key(key) && old(self)@.binds.dom().len() != 1 ==> {
                &&& r == Ok::<Action, MappingError>(old(self)@.binds[key])
                &&& final(self)@.toggle == old(self)@.toggle
                &&& final(self)@.binds == old(self)@.binds.remove(key)
            },
    {
        let action = match self.action_for(key) {
            Some(a) => a,
            None => {
                return Err(MappingError::NotMapped { key });
            },
        };
        if self.len() == 1 {
            return Err(MappingError::WouldBeEmpty);
        }
        match key.index() {
            Some(slot) => {
                proof {
                    lemma_table_clear(self.keys@, slot as int);
                    lemma_table_len(self.keys@.update(slot as int, None));
                    assert(slot_key(slot as int) == key);
                }
                self.keys.set(slot, None);
            },
            None => {},
        }
        Ok(action)
    }

    /// Changes the toggle key. It may be neither bound nor Escape.
    pub fn set_toggle_key(&mut self, key: KeyId) -> (r: Result<(), MappingError>)
        requires
            old(self).wf(),
        ensures
            final(self).wf(),
            r == if !key.spec_is_mappable() {
                Err::<(), MappingError>(MappingError::Unmappable { key, action: None })
            } else if key == esc_key() {
                Err(MappingError::ToggleIsEscape)
            } else if old(self)@.binds.contains_key(key) {
                Err(MappingError::ToggleKeyMapped { key, action: old(self)@.binds[key] })
            } else {
                Ok(())
            },
            r is Err ==> final(self)@ == old(self)@,
            r is Ok ==> final(self)@.toggle == key && final(self)@.binds == old(self)@.binds,
    {
        if !key.is_mappable() {
            return Err(MappingError::Unmappable { key, action: None });
        }
        if key == KeyId::esc() {
            return Err(MappingError::ToggleIsEscape);
        }
        if let Some(action) = self.action_for(key) {
            return Err(MappingError::ToggleKeyMapped { key, action });
        }
        self.toggle = key;
        Ok(())
    }
}

proof fn lemma_scan_listed(m: MappingView, bs: Seq<(KeyId, Action)>)
    requires
        valid_view(m),
        forall|i: int|
            #![trigger bs[i]]
            0 <= i < bs.len() ==> m.binds.contains_key(bs[i].0) && m.binds[bs[i].0] == bs[i].1,
    ensures
        scan_bindings(m.toggle, bs).1.len() == 0,
        !scan_bindings(m.toggle, bs).2,
        forall|k: KeyId| #[trigger]
            scan_bindings(m.toggle, bs).0.contains_key(k) <==> exists|i: int|
                0 <= i < bs.len() && bs[i].0 == k,
        forall|k: KeyId| #[trigger]
            scan_bindings(m.toggle, bs).0.contains_key(k) ==> scan_bindings(m.toggle, bs).0[k]
                == m.binds[k],
    decreases bs.len(),
{
    if bs.len() > 0 {
        let init = bs.drop_last();
        assert forall|i: int| #![trigger init[i]]
            0 <= i < init.len() implies m.binds.contains_key(init[i].0) && m.binds[init[i].0]
                == init[i].1 by {
            assert(init[i] == bs[i]);
        }
        lemma_scan_listed(m, init);
        let last = bs.last();
        assert(m.binds.contains_key(bs[bs.len() - 1].0));
        let r = scan_bindings(m.toggle, bs).0;
        assert forall|k: KeyId| #[trigger] r.contains_key(k) <==> exists|i: int|
            0 <= i < bs.len() && bs[i].0 == k by {
            if r.contains_key(k) && k != last.0 {
                let i = choose|i: int| 0 <= i < init.len() && init[i].0 == k;
                assert(bs[i] == init[i]);
            }
            if exists|i: int| 0 <= i < bs.len() && bs[i].0 == k {
                let i = choose|i: int| 0 <= i < bs.len() && bs[i].0 == k;
                if i < bs.len() - 1 {
                    assert(init[i] == bs[i]);
                }
            }
        }
    }
}

/// A mapping is rebuilt from its bindings: listing every binding of a
/// valid mapping (in any order, repeats allowed) and its toggle key to
/// [`Mapping::new`] raises no error and gives the same bindings back.
pub proof fn lemma_bindings_rebuild(m: MappingView, bs: Seq<(KeyId, Action)>)
    requires
        valid_view(m),
        forall|i: int|
            #![trigger bs[i]]
            0 <= i < bs.len() ==> m.binds.contains_key(bs[i].0) && m.binds[bs[i].0] == bs[i].1,
        forall|k: KeyId| #[trigger]
            m.binds.contains_key(k) ==> exists|i: int| 0 <= i < bs.len() && bs[i].0 == k,
    ensures
        new_errors(m.toggle, bs).len() == 0,
        scan_bindings(m.toggle, bs).0 == m.binds,
{
    lemma_scan_listed(m, bs);
    let r = scan_bindings(m.toggle, bs).0;
    assert(r =~= m.binds);
}

/// The default layout, by key POSITION: left stick WASD, right stick the
/// arrows, D-pad IJKL, A/B/X/Y Space/C/F/R, LB/RB Q/E, LT/RT 1/3, L3/R3
/// left Shift/V, Start/Back Enter/Backspace.
pub open spec fn default_binds() -> Map<KeyId, Action> {
    map![
        KeyId { scan: 0x11, extended: false } => Action::LeftStick(StickDir::Up),
        KeyId { scan: 0x1E, extended: false } => Action::LeftStick(StickDir::Left),
        KeyId { scan: 0x1F, extended: false } => Action::LeftStick(StickDir::Down),
        KeyId { scan: 0x20, extended: false } => Action::LeftStick(StickDir::Right),
        KeyId { scan: 0x48, extended: true } => Action::RightStick(StickDir::Up),
        KeyId { scan: 0x4B, extended: true } => Action::RightStick(StickDir::Left),
        KeyId { scan: 0x50, extended: true } => Action::RightStick(StickDir::Down),
        KeyId { scan: 0x4D, extended: true } => Action::RightStick(StickDir::Right),
        KeyId { scan: 0x17, extended: false } => Action::Button(PadButton::DpadUp),
        KeyId { scan: 0x24, extended: false } => Action::Button(PadButton::DpadLeft),
        KeyId { scan: 0x25, extended: false } => Action::Button(PadButton::DpadDown),
        KeyId { scan: 0x26, extended: false } => Action::Button(PadButton::DpadRight),
        KeyId { scan: 0x39, extended: false } => Action::Button(PadButton::A),
        KeyId { scan: 0x2E, extended: false } => Action::Button(PadButton::B),
        KeyId { scan: 0x21, extended: false } => Action::Button(PadButton::X),
        KeyId { scan: 0x13, extended: false } => Action::Button(PadButton::Y),
        KeyId { scan: 0x10, extended: false } => Action::Button(PadButton::Lb),
        KeyId { scan: 0x12, extended: false } => Action::Button(PadButton::Rb),
        KeyId { scan: 0x02, extended: false } => Action::LeftTrigger,
        KeyId { scan: 0x04, extended: false } => Action::RightTrigger,
        KeyId { scan: 0x2A, extended: false } => Action::Button(PadButton::L3),
        KeyId { scan: 0x2F, extended: false } => Action::Button(PadButton::R3),
        KeyId { scan: 0x1C, extended: false } => Action::Button(PadButton::Start),
        KeyId { scan: 0x0E, extended: false } => Action::Button(PadButton::Back),
    ]
}

fn put(keys: &mut Vec<Option<Action>>, key: KeyId, action: Action)
    requires
        table_wf(old(keys)@),
        key.spec_is_mappable(),
    ensures
        table_wf(final(keys)@),
        table_view(final(keys)@) == table_view(old(keys)@).insert(key, action),
{
    let slot = match key.index() {
        Some(i) => i,
        None => 0,
    };
    proof {
        lemma_table_set(keys@, slot as int, action);
    }
    keys.set(slot, Some(action));
}

impl Default for Mapping {
    /// The default layout (see [`default_binds`]); the toggle key is
    /// Scroll Lock.
    fn default() -> (m: Mapping)
        ensures
            m.wf(),
            m@.toggle == (KeyId { scan: 0x46, extended: false }),
            m@.binds == default_binds(),
    {
        let mut keys: Vec<Option<Action>> = Vec::new();
        for j in 0..KEY_TABLE_SIZE
            invariant
                keys@.len() == j,
                forall|x: int| 0 <= x < j ==> keys@[x] is None,
        {
            keys.push(None);
        }
        proof {
            assert(table_view(keys@) =~= Map::<KeyId, Action>::empty());
        }
        put(&mut keys, KeyId::new(0x11), Action::LeftStick(StickDir::Up));
        put(&mut keys, KeyId::new(0x1E), Action::LeftStick(StickDir::Left));
        put(&mut keys, KeyId::new(0x1F), Action::LeftStick(StickDir::Down));
        put(&mut keys, KeyId::new(0x20), Action::LeftStick(StickDir::Right));
        put(&mut keys, KeyId::ext(0x48), Action::RightStick(StickDir::Up));
        put(&mut keys, KeyId::ext(0x4B), Action::RightStick(StickDir::Left));
        put(&mut keys, KeyId::ext(0x50), Action::RightStick(StickDir::Down));
        put(&mut keys, KeyId::ext(0x4D), Action::RightStick(StickDir::Right));
        put(&mut keys, KeyId::new(0x17), Action::Button(PadButton::DpadUp));
        put(&mut keys, KeyId::new(0x24), Action::Button(PadButton::DpadLeft));
        put(&mut keys, KeyId::new(0x25), Action::Button(PadButton::DpadDown));
        put(&mut keys, KeyId::new(0x26), Action::Button(PadButton::DpadRight));
        put(&mut keys, KeyId::new(0x39), Action::Button(PadButton::A));
        put(&mut keys, KeyId::new(0x2E), Action::Button(PadButton::B));
        put(&mut keys, KeyId::new(0x21), Action::Button(PadButton::X));
        put(&mut keys, KeyId::new(0x13), Action::Button(PadButton::Y));
        put(&mut keys, KeyId::new(0x10), Action::Button(PadButton::Lb));
        put(&mut keys, KeyId::new(0x12), Action::Button(PadButton::Rb));
        put(&mut keys, KeyId::new(0x02), Action::LeftTrigger);
        put(&mut keys, KeyId::new(0x04), Action::RightTrigger);
        put(&mut keys, KeyId::new(0x2A), Action::Button(PadButton::L3));
        put(&mut keys, KeyId::new(0x2F), Action::Button(PadButton::R3));
        put(&mut keys, KeyId::new(0x1C), Action::Button(PadButton::Start));
        put(&mut keys, KeyId::new(0x0E), Action::Button(PadButton::Back));
        let m = Mapping { toggle: KeyId::scroll_lock(), keys };
        proof {
            assert(table_view(keys@) =~= default_binds());
            lemma_table_len(keys@);
            assert(m@.binds.contains_key(KeyId { scan: 0x11, extended: false }));
            assert(m@.binds.dom().len() > 0);
        }
        m
    }
}

/// Number of filled slots of a table.
fn count_filled(keys: &Vec<Option<Action>>) -> (n: usize)
    requires
        keys@.len() == KEY_TABLE_SIZE,
    ensures
        n == count_some(keys@),
{
    let mut n: usize = 0;
    for i in 0..keys.len()
        invariant
            keys@.len() == KEY_TABLE_SIZE,
            n == count_some(keys@.take(i as int)),
            n <= i,
    {
        proof {
            assert(keys@.take(i + 1).drop_last() =~= keys@.take(i as int));
        }
        if keys[i].is_some() {
            n = n + 1;
        }
    }
    proof {
        assert(keys@.take(keys@.len() as int) =~= keys@);
    }
    n
}

/// `bs` lists exactly the bindings of `v`, in slot order: what
/// [`Mapping::bindings`] hands out.
pub open spec fn lists_bindings(v: MappingView, bs: Seq<(KeyId, Action)>) -> bool {
    &&& forall|i: int|
        0 <= i < bs.len() ==> #[trigger] v.binds.contains_key(bs[i].0) && v.binds[bs[i].0]
            == bs[i].1
    &&& forall|k: KeyId| #[trigger]
        v.binds.contains_key(k) ==> exists|i: int| 0 <= i < bs.len() && bs[i].0 == k
    &&& forall|i: int, j: int| 0 <= i < j < bs.len() ==> key_slot(bs[i].0) < key_slot(bs[j].0)
}

/// One binding in a debug listing: `(KeyId { .. }, LeftStick(Up))`.
pub open spec fn binding_debug_text(b: (KeyId, Action)) -> Seq<char> {
    "("@ + key_debug_text(b.0) + ", "@ + action_text(b.1) + ")"@
}

/// The bindings in a debug listing, separated by `, `.
pub open spec fn bindings_debug_text(bs: Seq<(KeyId, Action)>) -> Seq<char>
    decreases bs.len(),
{
    if bs.len() == 0 {
        Seq::empty()
    } else if bs.len() == 1 {
        binding_debug_text(bs[0])
    } else {
        bindings_debug_text(bs.drop_last()) + ", "@ + binding_debug_text(bs.last())
    }
}

/// A mapping in a debug listing: the toggle key and the bound keys only.
pub open spec fn mapping_debug_text(toggle: KeyId, bs: Seq<(KeyId, Action)>) -> Seq<char> {
    "Mapping { toggle: "@ + key_debug_text(toggle) + ", bindings: ["@ + bindings_debug_text(bs)
        + "] }"@
}

impl Mapping {
    /// The mapping for a log: the toggle key and the bound keys only; the
    /// empty slots of the table are left out.
    pub fn debug_text(&self) -> (s: String)
        requires
            self.wf(),
        ensures
            exists|bs: Seq<(KeyId, Action)>|
                lists_bindings(self@, bs) && s@ == mapping_debug_text(self@.toggle, bs),
    {
        let bs = self.bindings();
        let mut s = owned("Mapping { toggle: ");
        s.append(self.toggle.debug_text().as_str());
        s.append(", bindings: [");
        let ghost head = s@;
        let mut i: usize = 0;
        while i < bs.len()
            invariant
                i <= bs@.len(),
                s@ == head + bindings_debug_text(bs@.take(i as int)),
            decreases bs@.len() - i,
        {
            let ghost before = s@;
            if i > 0 {
                s.append(", ");
            }
            let (k, a) = bs[i];
            s.append("(");
            s.append(k.debug_text().as_str());
            s.append(", ");
            s.append(a.to_text().as_str());
            s.append(")");
            proof {
                reveal_strlit(", ");
                reveal_strlit("(");
                reveal_strlit(")");
                let t = bs@.take(i + 1);
                assert(t.drop_last() =~= bs@.take(i as int));
                assert(t.last() == bs@[i as int]);
                if i == 0 {
                    assert(bs@.take(0) =~= Seq::<(KeyId, Action)>::empty());
                    assert(s@ =~= head + bindings_debug_text(t));
                } else {
                    assert(s@ =~= head + bindings_debug_text(t));
                }
            }
            i = i + 1;
        }
        s.append("] }");
        proof {
            reveal_strlit("Mapping { toggle: ");
            reveal_strlit(", bindings: [");
            reveal_strlit("] }");
            assert(bs@.take(bs@.len() as int) =~= bs@);
            assert(lists_bindings(self@, bs@));
            assert(s@ =~= mapping_debug_text(self@.toggle, bs@));
        }
        s
    }
}

/// What an error says to the user.
pub open spec fn error_text(e: MappingError) -> Seq<char> {
    match e {
        MappingError::Empty => "mapování je prázdné"@,
        MappingError::WouldBeEmpty => "poslední vazbu nelze odebrat"@,
        MappingError::DuplicateKey { key, first, second } => "klávesa "@ + key_text(key)
            + " je přiřazena dvěma akcím ("@ + action_text(first) + " a "@ + action_text(second)
            + ")"@,
        MappingError::ToggleKeyMapped { key, action } => "klávesa "@ + key_text(key)
            + " je zkratka přepnutí a nemůže zároveň ovládat "@ + action_text(action),
        MappingError::ToggleIsEscape => "Esc nemůže být zkratka přepnutí"@,
        MappingError::Unmappable { key, .. } => "klávesu "@ + key_text(key) + " nelze mapovat"@,
        MappingError::NotMapped { key } => "klávesa "@ + key_text(key) + " nemá vazbu"@,
    }
}

impl MappingError {
    /// The error as the user reads it.
    pub fn to_text(&self) -> (s: String)
        ensures
            s@ == error_text(*self),
    {
        match *self {
            MappingError::Empty => owned("mapování je prázdné"),
            MappingError::WouldBeEmpty => owned("poslední vazbu nelze odebrat"),
            MappingError::DuplicateKey { key, first, second } => {
                let mut s = owned("klávesa ");
                s.append(key.to_text().as_str());
                s.append(" je přiřazena dvěma akcím (");
                s.append(first.to_text().as_str());
                s.append(" a ");
                s.append(second.to_text().as_str());
                s.append(")");
                s
            },
            MappingError::ToggleKeyMapped { key, action } => {
                let mut s = owned("klávesa ");
                s.append(key.to_text().as_str());
                s.append(" je zkratka přepnutí a nemůže zároveň ovládat ");
                s.append(action.to_text().as_str());
                s
            },
            MappingError::ToggleIsEscape => owned("Esc nemůže být zkratka přepnutí"),
            MappingError::Unmappable { key, .. } => {
                let mut s = owned("klávesu ");
                s.append(key.to_text().as_str());
                s.append(" nelze mapovat");
                s
            },
            MappingError::NotMapped { key } => {
                let mut s = owned("klávesa ");
                s.append(key.to_text().as_str());
                s.append(" nemá vazbu");
                s
            },
        }
    }
}

} // verus!
