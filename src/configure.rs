//! The configuration builder: remap and macro tables that fill up call by call,
//! a later entry for a key replacing an earlier one, and finalisation into a layout.
use vstd::prelude::*;
use crate::keys::{
    lemma_empty_modifiers_first, lemma_holds_member, lemma_modifier_set_exists,
    lemma_modifier_set_of, lemma_normal_token_unique, lemma_shortcut_irreflexive,
    lemma_shortcut_transitive, lemma_shortcut_trichotomy, modifier_set_of, shortcut_lt,
    trigger_modifiers, trigger_text, Key, KeyLayer, Keypad, Modifier, ModifierSet, NonModifier,
    Shortcut,
};
use crate::layout::{
    join_lines, layout_lines, lemma_macro_line_not_remap, lemma_one_remap_line, lemma_orders,
    lemma_remap_opening, macro_line, output_entries, remap_line, remap_opening, remap_order,
    starts_with, trigger_order, Layout, Remap,
};
use crate::macros::{
    body_text, chord_modifiers, chord_text, emission_text, resolve, Emission, Fragment,
    MacroBuilder, MacroOutput, MacroOutputTemp, System,
};
use crate::table::{
    has_key, insert_all, lemma_insert_new, lemma_lookup, lemma_map_values, lemma_remove,
    lemma_sorted_determined, lemma_sorted_unique_keys, lemma_update, sorted_by, table_map,
};

verus! {

/// The entries of a macro table, each with the macro's fragments.
pub open spec fn pending_entries(s: Seq<(Shortcut, MacroOutputTemp)>) -> Seq<
    (Shortcut, Seq<Fragment>),
> {
    s.map_values(|e: (Shortcut, MacroOutputTemp)| (e.0, e.1@))
}

fn insert_remap(t: &mut Vec<Remap>, k: KeyLayer, v: Option<KeyLayer>)
    requires
        sorted_by(old(t)@, remap_order()),
    ensures
        sorted_by(final(t)@, remap_order()),
        table_map(final(t)@) == table_map(old(t)@).insert(k, v),
{
    proof {
        lemma_orders();
        lemma_sorted_unique_keys(t@, remap_order());
    }
    let c = k.code();
    let mut i: usize = 0;
    while i < t.len() && t[i].0.code() < c
        invariant
            i <= t@.len(),
            forall|j: int| 0 <= j < i ==> (#[trigger] t@[j]).0.spec_code() < c,
        decreases t@.len() - i,
    {
        i = i + 1;
    }
    let ghost s = t@;
    if i < t.len() && t[i].0.code() == c {
        proof {
            s[i as int].0.lemma_code_injective(k);
            lemma_update(s, i as int, v);
        }
        t.set(i, (k, v));
        assert(t@ == s.update(i as int, (s[i as int].0, v)));
        assert forall|a: int, b: int| 0 <= a < b < t@.len() implies remap_order()(
            #[trigger] t@[a].0,
            #[trigger] t@[b].0,
        ) by {
            assert(t@[a].0 == s[a].0 && t@[b].0 == s[b].0);
            assert(remap_order()(s[a].0, s[b].0));
        }
    } else {
        proof {
            assert forall|j: int| i <= j < s.len() implies #[trigger] s[j].0.spec_code() > c by {
                if j > i {
                    assert(remap_order()(s[i as int].0, s[j].0));
                }
            }
            assert(!has_key(s, k));
            lemma_insert_new(s, i as int, k, v);
        }
        t.insert(i, (k, v));
        assert forall|a: int, b: int| 0 <= a < b < t@.len() implies remap_order()(
            #[trigger] t@[a].0,
            #[trigger] t@[b].0,
        ) by {
            if b < i {
                assert(remap_order()(s[a].0, s[b].0));
            } else if b == i {
                assert(t@[a] == s[a]);
            } else if a < i {
                assert(t@[b] == s[b - 1]);
                assert(t@[a] == s[a]);
            } else if a == i {
                assert(t@[b] == s[b - 1]);
            } else {
                assert(t@[a] == s[a - 1] && t@[b] == s[b - 1]);
                assert(remap_order()(s[a - 1].0, s[b - 1].0));
            }
        }
    }
}

fn remove_remap_entry(t: &mut Vec<Remap>, k: KeyLayer)
    requires
        sorted_by(old(t)@, remap_order()),
    ensures
        sorted_by(final(t)@, remap_order()),
        table_map(final(t)@) == table_map(old(t)@).remove(k),
{
    proof {
        lemma_orders();
        lemma_sorted_unique_keys(t@, remap_order());
    }
    let c = k.code();
    let mut i: usize = 0;
    while i < t.len() && t[i].0.code() != c
        invariant
            i <= t@.len(),
            forall|j: int| 0 <= j < i ==> (#[trigger] t@[j]).0.spec_code() != c,
        decreases t@.len() - i,
    {
        i = i + 1;
    }
    let ghost s = t@;
    if i < t.len() {
        proof {
            s[i as int].0.lemma_code_injective(k);
            lemma_remove(s, i as int);
        }
        t.remove(i);
        assert forall|a: int, b: int| 0 <= a < b < t@.len() implies remap_order()(
            #[trigger] t@[a].0,
            #[trigger] t@[b].0,
        ) by {
            let a0 = if a < i { a } else { a + 1 };
            let b0 = if b < i { b } else { b + 1 };
            assert(t@[a] == s[a0] && t@[b] == s[b0]);
            assert(remap_order()(s[a0].0, s[b0].0));
        }
    } else {
        assert(!has_key(s, k));
        assert(table_map(s).remove(k) =~= table_map(s));
    }
}

fn insert_macro(t: &mut Vec<(Shortcut, MacroOutputTemp)>, k: Shortcut, v: MacroOutputTemp)
    requires
        sorted_by(pending_entries(old(t)@), trigger_order()),
    ensures
        sorted_by(pending_entries(final(t)@), trigger_order()),
        table_map(pending_entries(final(t)@)) == table_map(pending_entries(old(t)@)).insert(
            k,
            v@,
        ),
{
    let ghost s = pending_entries(t@);
    proof {
        lemma_orders();
        lemma_sorted_unique_keys(s, trigger_order());
    }
    let mut i: usize = 0;
    while i < t.len() && t[i].0.less(&k)
        invariant
            s == pending_entries(t@),
            i <= t@.len(),
            forall|j: int| 0 <= j < i ==> shortcut_lt(#[trigger] t@[j].0, k),
        decreases t@.len() - i,
    {
        i = i + 1;
    }
    let ghost v_view = v@;
    if i < t.len() && t[i].0 == k {
        proof {
            lemma_update(s, i as int, v_view);
        }
        t.set(i, (k, v));
        assert(pending_entries(t@) =~= s.update(i as int, (s[i as int].0, v_view)));
        assert forall|a: int, b: int| 0 <= a < b < pending_entries(t@).len() implies trigger_order()(
            #[trigger] pending_entries(t@)[a].0,
            #[trigger] pending_entries(t@)[b].0,
        ) by {
            assert(trigger_order()(s[a].0, s[b].0));
        }
    } else {
        proof {
            if i < s.len() {
                lemma_shortcut_trichotomy(s[i as int].0, k);
            }
            assert forall|j: int| i <= j < s.len() implies shortcut_lt(k, #[trigger] s[j].0) by {
                if j > i {
                    assert(trigger_order()(s[i as int].0, s[j].0));
                    lemma_shortcut_transitive(k, s[i as int].0, s[j].0);
                }
            }
            assert forall|j: int| 0 <= j < s.len() implies #[trigger] s[j].0 != k by {
                if j < i {
                    assert(shortcut_lt(s[j].0, k));
                    lemma_shortcut_irreflexive(k);
                } else {
                    lemma_shortcut_irreflexive(k);
                }
            }
            assert(!has_key(s, k));
            lemma_insert_new(s, i as int, k, v_view);
        }
        t.insert(i, (k, v));
        assert(pending_entries(t@) =~= s.insert(i as int, (k, v_view)));
        let ghost n = pending_entries(t@);
        assert forall|a: int, b: int| 0 <= a < b < n.len() implies trigger_order()(
            #[trigger] n[a].0,
            #[trigger] n[b].0,
        ) by {
            if b < i {
                assert(trigger_order()(s[a].0, s[b].0));
            } else if b == i {
                assert(n[a] == s[a]);
            } else if a < i {
                assert(n[b] == s[b - 1]);
                assert(n[a] == s[a]);
                lemma_shortcut_transitive(s[a].0, k, s[b - 1].0);
            } else if a == i {
                assert(n[b] == s[b - 1]);
            } else {
                assert(n[a] == s[a - 1] && n[b] == s[b - 1]);
                assert(trigger_order()(s[a - 1].0, s[b - 1].0));
            }
        }
    }
}

/// A shortcut of a key with no modifier.
pub open spec fn bare(keypad: Keypad, key: NonModifier) -> Shortcut {
    Shortcut { keypad, modifiers: modifier_set_of(Set::empty()), non_modifier: key }
}

/// A shortcut of a key with right shift.
pub open spec fn right_shifted(keypad: Keypad, key: NonModifier) -> Shortcut {
    Shortcut { keypad, modifiers: modifier_set_of(set![Modifier::RightShift]), non_modifier: key }
}

/// The macro table after inverting a key in a layer: the bare key types the shifted
/// key and the shifted key types the bare key.
pub open spec fn inverted(m: Map<Shortcut, Seq<Fragment>>, keypad: Keypad, key: NonModifier) -> Map<
    Shortcut,
    Seq<Fragment>,
> {
    m.insert(bare(keypad, key), seq![Fragment::Chord(right_shifted(keypad, key))]).insert(
        right_shifted(keypad, key),
        seq![Fragment::Chord(bare(keypad, key))],
    )
}

/// The macro table after inverting each key of a sequence of the normal layer, in order.
pub open spec fn inverted_all(m: Map<Shortcut, Seq<Fragment>>, keys: Seq<NonModifier>) -> Map<
    Shortcut,
    Seq<Fragment>,
>
    decreases keys.len(),
{
    if keys.len() == 0 {
        m
    } else {
        inverted(inverted_all(m, keys.drop_last()), Keypad::Off, keys.last())
    }
}

/// The digit keys one to nine.
pub open spec fn digits() -> Seq<NonModifier> {
    seq![
        NonModifier::One,
        NonModifier::Two,
        NonModifier::Three,
        NonModifier::Four,
        NonModifier::Five,
        NonModifier::Six,
        NonModifier::Seven,
        NonModifier::Eight,
        NonModifier::Nine,
    ]
}

/// Builds a keyboard layout call by call. Each table holds at most one entry per key;
/// registering a key again replaces its entry.
#[derive(PartialEq, Eq, Clone, Debug)]
pub struct Configure {
    system: System,
    remappings: Vec<Remap>,
    macros: Vec<(Shortcut, MacroOutputTemp)>,
}

impl Configure {
    /// The platform that commands are resolved for.
    pub closed spec fn spec_system(&self) -> System {
        self.system
    }

    /// The remap table, in ascending order of source key.
    pub closed spec fn remap_entries(&self) -> Seq<Remap> {
        self.remappings@
    }

    /// The macro table, in ascending order of trigger.
    pub closed spec fn macro_entries(&self) -> Seq<(Shortcut, Seq<Fragment>)> {
        pending_entries(self.macros@)
    }

    /// The remappings: each source key with its target, `None` for a dead key.
    pub open spec fn remap_map(&self) -> Map<KeyLayer, Option<KeyLayer>> {
        table_map(self.remap_entries())
    }

    /// The macros: each trigger with the macro's fragments.
    pub open spec fn macro_map(&self) -> Map<Shortcut, Seq<Fragment>> {
        table_map(self.macro_entries())
    }

    /// Both tables are sorted by key, so each key has at most one entry.
    pub open spec fn wf(&self) -> bool {
        &&& sorted_by(self.remap_entries(), remap_order())
        &&& sorted_by(self.macro_entries(), trigger_order())
    }

    /// A configuration for the PC family with no remappings and no macros.
    pub fn new() -> (r: Configure)
        ensures
            r.wf(),
            r.spec_system() == System::PC,
            r.remap_entries() == Seq::<Remap>::empty(),
            r.macro_entries() == Seq::<(Shortcut, Seq<Fragment>)>::empty(),
    {
        let r = Configure { system: System::PC, remappings: Vec::new(), macros: Vec::new() };
        assert(r.macro_entries() =~= Seq::<(Shortcut, Seq<Fragment>)>::empty());
        r
    }

    /// Sets the platform that commands are resolved for.
    pub fn set_system(self, system: System) -> (r: Configure)
        requires
            self.wf(),
        ensures
            r.wf(),
            r.spec_system() == system,
            r.remap_entries() == self.remap_entries(),
            r.macro_entries() == self.macro_entries(),
    {
        Configure { system, ..self }
    }

    /// Remaps or kills a key in any layer; the general form of the remapping calls.
    fn put_remap(self, source: KeyLayer, target: Option<KeyLayer>) -> (r: Configure)
        requires
            self.wf(),
        ensures
            r.wf(),
            r.spec_system() == self.spec_system(),
            r.remap_map() == self.remap_map().insert(source, target),
            r.macro_entries() == self.macro_entries(),
    {
        let mut t = self.remappings;
        insert_remap(&mut t, source, target);
        Configure { remappings: t, ..self }
    }

    /// Remaps a key of the normal layer.
    pub fn remap(self, old_key: Key, new_key: Key) -> (r: Configure)
        requires
            self.wf(),
        ensures
            r.wf(),
            r.spec_system() == self.spec_system(),
            r.remap_map() == self.remap_map().insert(
                KeyLayer::off_spec(old_key),
                Some(KeyLayer::off_spec(new_key)),
            ),
            r.macro_entries() == self.macro_entries(),
    {
        self.put_remap(KeyLayer::off(old_key), Some(KeyLayer::off(new_key)))
    }

    /// Remaps a key of the keypad layer.
    pub fn remap_keypad(self, old_key: Key, new_key: Key) -> (r: Configure)
        requires
            self.wf(),
        ensures
            r.wf(),
            r.spec_system() == self.spec_system(),
            r.remap_map() == self.remap_map().insert(
                KeyLayer::on_spec(old_key),
                Some(KeyLayer::on_spec(new_key)),
            ),
            r.macro_entries() == self.macro_entries(),
    {
        self.put_remap(KeyLayer::on(old_key), Some(KeyLayer::on(new_key)))
    }

    /// Remaps a key in both layers.
    pub fn remap_all(self, old_key: Key, new_key: Key) -> (r: Configure)
        requires
            self.wf(),
        ensures
            r.wf(),
            r.spec_system() == self.spec_system(),
            r.remap_map() == self.remap_map().insert(
                KeyLayer::off_spec(old_key),
                Some(KeyLayer::off_spec(new_key)),
            ).insert(KeyLayer::on_spec(old_key), Some(KeyLayer::on_spec(new_key))),
            r.macro_entries() == self.macro_entries(),
    {
        self.remap(old_key, new_key).remap_keypad(old_key, new_key)
    }

    /// Remaps a key of either layer to a key of either layer.
    pub fn remap_permissive(self, old_key: KeyLayer, new_key: KeyLayer) -> (r: Configure)
        requires
            self.wf(),
        ensures
            r.wf(),
            r.spec_system() == self.spec_system(),
            r.remap_map() == self.remap_map().insert(old_key, Some(new_key)),
            r.macro_entries() == self.macro_entries(),
    {
        self.put_remap(old_key, Some(new_key))
    }

    /// Merges a remap table, such as a whole alternate base layout, entry by entry;
    /// its entries replace existing ones with the same source key.
    pub fn with_remappings(self, remappings: Vec<Remap>) -> (r: Configure)
        requires
            self.wf(),
        ensures
            r.wf(),
            r.spec_system() == self.spec_system(),
            r.remap_map() == insert_all(self.remap_map(), remappings@),
            r.macro_entries() == self.macro_entries(),
    {
        let ghost start = self.remap_map();
        let mut c = self;
        let mut i: usize = 0;
        while i < remappings.len()
            invariant
                c.wf(),
                c.spec_system() == self.spec_system(),
                c.macro_entries() == self.macro_entries(),
                i <= remappings@.len(),
                c.remap_map() == insert_all(start, remappings@.take(i as int)),
            decreases remappings@.len() - i,
        {
            let (k, v) = remappings[i];
            c = c.put_remap(k, v);
            assert(remappings@.take(i + 1).drop_last() =~= remappings@.take(i as int));
            i = i + 1;
        }
        assert(remappings@.take(remappings@.len() as int) =~= remappings@);
        c
    }

    /// Makes a key of the normal layer produce nothing.
    pub fn dead_key(self, key: Key) -> (r: Configure)
        requires
            self.wf(),
        ensures
            r.wf(),
            r.spec_system() == self.spec_system(),
            r.remap_map() == self.remap_map().insert(KeyLayer::off_spec(key), None),
            r.macro_entries() == self.macro_entries(),
    {
        self.put_remap(KeyLayer::off(key), None)
    }

    /// Makes a key of the keypad layer produce nothing.
    pub fn keypad_dead_key(self, key: Key) -> (r: Configure)
        requires
            self.wf(),
        ensures
            r.wf(),
            r.spec_system() == self.spec_system(),
            r.remap_map() == self.remap_map().insert(KeyLayer::on_spec(key), None),
            r.macro_entries() == self.macro_entries(),
    {
        self.put_remap(KeyLayer::on(key), None)
    }

    fn drop_remap(self, source: KeyLayer) -> (r: Configure)
        requires
            self.wf(),
        ensures
            r.wf(),
            r.spec_system() == self.spec_system(),
            r.remap_map() == self.remap_map().remove(source),
            r.macro_entries() == self.macro_entries(),
    {
        let mut t = self.remappings;
        remove_remap_entry(&mut t, source);
        Configure { remappings: t, ..self }
    }

    /// Removes the remapping of a key of the normal layer, if there is one.
    pub fn remove_remap(self, key: Key) -> (r: Configure)
        requires
            self.wf(),
        ensures
            r.wf(),
            r.spec_system() == self.spec_system(),
            r.remap_map() == self.remap_map().remove(KeyLayer::off_spec(key)),
            r.macro_entries() == self.macro_entries(),
    {
        self.drop_remap(KeyLayer::off(key))
    }

    /// Removes the remapping of a key of the keypad layer, if there is one.
    pub fn remove_remap_keypad(self, key: Key) -> (r: Configure)
        requires
            self.wf(),
        ensures
            r.wf(),
            r.spec_system() == self.spec_system(),
            r.remap_map() == self.remap_map().remove(KeyLayer::on_spec(key)),
            r.macro_entries() == self.macro_entries(),
    {
        self.drop_remap(KeyLayer::on(key))
    }

    /// Registers a macro on a trigger, replacing any macro on that trigger.
    pub fn with_macro(self, shortcut: Shortcut, macro_output: MacroOutputTemp) -> (r: Configure)
        requires
            self.wf(),
        ensures
            r.wf(),
            r.spec_system() == self.spec_system(),
            r.remap_entries() == self.remap_entries(),
            r.macro_map() == self.macro_map().insert(shortcut, macro_output@),
    {
        let mut t = self.macros;
        insert_macro(&mut t, shortcut, macro_output);
        Configure { macros: t, ..self }
    }

    fn invert_in(self, keypad: Keypad, key: NonModifier) -> (r: Configure)
        requires
            self.wf(),
        ensures
            r.wf(),
            r.spec_system() == self.spec_system(),
            r.remap_entries() == self.remap_entries(),
            r.macro_map() == inverted(self.macro_map(), keypad, key),
    {
        let plain = Shortcut { keypad, modifiers: ModifierSet::new(), non_modifier: key };
        let shifted = Shortcut {
            keypad,
            modifiers: ModifierSet::new().with(Modifier::RightShift),
            non_modifier: key,
        };
        proof {
            assert(plain.modifiers@ =~= Set::<Modifier>::empty());
            assert(shifted.modifiers@ =~= set![Modifier::RightShift]);
            lemma_modifier_set_of(plain.modifiers);
            lemma_modifier_set_of(shifted.modifiers);
        }
        let to_shifted = MacroBuilder::new().with_shortcut(shifted).make();
        let to_plain = MacroBuilder::new().with_shortcut(plain).make();
        self.with_macro(plain, to_shifted).with_macro(shifted, to_plain)
    }

    /// Swaps a key of the normal layer with its shifted form: pressed alone it types
    /// the shifted symbol, pressed with shift it types the plain key.
    pub fn invert_key(self, key: NonModifier) -> (r: Configure)
        requires
            self.wf(),
        ensures
            r.wf(),
            r.spec_system() == self.spec_system(),
            r.remap_entries() == self.remap_entries(),
            r.macro_map() == inverted(self.macro_map(), Keypad::Off, key),
    {
        self.invert_in(Keypad::Off, key)
    }

    /// Swaps a key of the keypad layer with its shifted form.
    pub fn invert_keypad_key(self, key: NonModifier) -> (r: Configure)
        requires
            self.wf(),
        ensures
            r.wf(),
            r.spec_system() == self.spec_system(),
            r.remap_entries() == self.remap_entries(),
            r.macro_map() == inverted(self.macro_map(), Keypad::On, key),
    {
        self.invert_in(Keypad::On, key)
    }

    /// Inverts the digit keys one to nine.
    pub fn invert_numbers(self) -> (r: Configure)
        requires
            self.wf(),
        ensures
            r.wf(),
            r.spec_system() == self.spec_system(),
            r.remap_entries() == self.remap_entries(),
            r.macro_map() == inverted_all(self.macro_map(), digits()),
    {
        let keys: Vec<NonModifier> = vec![
            NonModifier::One,
            NonModifier::Two,
            NonModifier::Three,
            NonModifier::Four,
            NonModifier::Five,
            NonModifier::Six,
            NonModifier::Seven,
            NonModifier::Eight,
            NonModifier::Nine,
        ];
        assert(keys@ =~= digits());
        let ghost start = self.macro_map();
        let mut c = self;
        let mut i: usize = 0;
        while i < keys.len()
            invariant
                keys@ == digits(),
                c.wf(),
                c.spec_system() == self.spec_system(),
                c.remap_entries() == self.remap_entries(),
                i <= keys@.len(),
                c.macro_map() == inverted_all(start, keys@.take(i as int)),
            decreases keys@.len() - i,
        {
            c = c.invert_key(keys[i]);
            assert(keys@.take(i + 1).drop_last() =~= keys@.take(i as int));
            i = i + 1;
        }
        assert(keys@.take(9) =~= keys@);
        c
    }

    /// The layout of this configuration, with every macro resolved for its platform.
    /// The configuration is left as it is and shares nothing with the layout.
    pub fn make(&self) -> (r: Layout)
        requires
            self.wf(),
        ensures
            r.wf(),
            r.remap_entries() == self.remap_entries(),
            r.macro_entries() == self.macro_entries().map_values(
                |e: (Shortcut, Seq<Fragment>)| (e.0, resolve(e.1, self.spec_system())),
            ),
            r.remap_map() == self.remap_map(),
            r.macro_map() == self.macro_map().map_values(
                |f: Seq<Fragment>| resolve(f, self.spec_system()),
            ),
    {
        let mut remaps: Vec<Remap> = Vec::new();
        let mut i: usize = 0;
        while i < self.remappings.len()
            invariant
                i <= self.remappings@.len(),
                remaps@ == self.remappings@.take(i as int),
            decreases self.remappings@.len() - i,
        {
            remaps.push(self.remappings[i]);
            assert(remaps@ =~= self.remappings@.take(i + 1));
            i = i + 1;
        }
        assert(remaps@ =~= self.remappings@);
        let ghost want = self.macro_entries().map_values(
            |e: (Shortcut, Seq<Fragment>)| (e.0, resolve(e.1, self.system)),
        );
        let mut macros: Vec<(Shortcut, MacroOutput)> = Vec::new();
        let mut j: usize = 0;
        while j < self.macros.len()
            invariant
                j <= self.macros@.len(),
                want == self.macro_entries().map_values(
                    |e: (Shortcut, Seq<Fragment>)| (e.0, resolve(e.1, self.system)),
                ),
                macros@.len() == j,
                forall|k: int|
                    0 <= k < j ==> (#[trigger] macros@[k]).0 == want[k].0 && macros@[k].1@
                        == want[k].1,
            decreases self.macros@.len() - j,
        {
            let entry = &self.macros[j];
            let out = entry.1.to_macro_output(self.system);
            macros.push((entry.0, out));
            j = j + 1;
        }
        assert(output_entries(macros@) =~= want);
        assert(sorted_by(want, trigger_order())) by {
            assert forall|a: int, b: int| 0 <= a < b < want.len() implies trigger_order()(
                #[trigger] want[a].0,
                #[trigger] want[b].0,
            ) by {
                assert(trigger_order()(self.macro_entries()[a].0, self.macro_entries()[b].0));
            }
        }
        proof {
            lemma_orders();
            lemma_sorted_unique_keys(self.macro_entries(), trigger_order());
            let g = |f: Seq<Fragment>| resolve(f, self.system);
            lemma_map_values(self.macro_entries(), g);
            assert(self.macro_entries().map_values(|e: (Shortcut, Seq<Fragment>)| (e.0, g(e.1)))
                =~= want);
            assert(self.macro_map().map_values(g) =~= self.macro_map().map_values(
                |f: Seq<Fragment>| resolve(f, self.spec_system()),
            ));
        }
        Layout::from_tables(remaps, macros)
    }
}

impl Default for Configure {
    fn default() -> (r: Configure)
        ensures
            r.wf(),
            r.spec_system() == System::PC,
            r.remap_entries() == Seq::<Remap>::empty(),
            r.macro_entries() == Seq::<(Shortcut, Seq<Fragment>)>::empty(),
    {
        Configure::new()
    }
}

/// Registering a remapping of a key twice leaves exactly one remap line for that key
/// in the layout, and it is the line of the second registration.
pub proof fn lemma_remap_twice(
    c: Configure,
    l: Layout,
    k: KeyLayer,
    first: Option<KeyLayer>,
    second: Option<KeyLayer>,
)
    requires
        c.wf(),
        l.wf(),
        l.remap_map() == c.remap_map().insert(k, first).insert(k, second),
    ensures
        l.remap_map() == c.remap_map().insert(k, second),
        exists|i: int|
            0 <= i < l.remap_entries().len() && l.remap_entries()[i].0 == k && layout_lines(
                l.remap_entries(),
                l.macro_entries(),
            )[i] == remap_line((k, second)) && forall|j: int|
                0 <= j < l.remap_entries().len() && #[trigger] l.remap_entries()[j].0 == k ==> j
                    == i,
{
    assert(c.remap_map().insert(k, first).insert(k, second) =~= c.remap_map().insert(k, second));
    lemma_one_remap_line(&l, k);
}

/// The rendering of a key in braces.
pub open spec fn braced(keypad: Keypad, key: NonModifier) -> Seq<char> {
    "{"@ + KeyLayer { keypad_state: keypad, key: Key::NonModifier(key) }.spec_token() + "}"@
}

proof fn lemma_chord_modifiers_single(s: Shortcut, sign: Seq<char>)
    requires
        forall|i: int| 0 <= i < 8 ==> (s.modifiers.holds(i) <==> i == 1),
    ensures
        chord_modifiers(s, 8, sign) == "{"@ + sign + Modifier::from_rank(1).spec_token() + "}"@,
{
    assert(chord_modifiers(s, 8, sign) == chord_modifiers(s, 2, sign)) by {
        assert(chord_modifiers(s, 8, sign) == chord_modifiers(s, 7, sign));
        assert(chord_modifiers(s, 7, sign) == chord_modifiers(s, 6, sign));
        assert(chord_modifiers(s, 6, sign) == chord_modifiers(s, 5, sign));
        assert(chord_modifiers(s, 5, sign) == chord_modifiers(s, 4, sign));
        assert(chord_modifiers(s, 4, sign) == chord_modifiers(s, 3, sign));
        assert(chord_modifiers(s, 3, sign) == chord_modifiers(s, 2, sign));
    }
    assert(chord_modifiers(s, 1, sign) == chord_modifiers(s, 0, sign));
    assert(chord_modifiers(s, 0, sign) == Seq::<char>::empty());
    assert(chord_modifiers(s, 2, sign) =~= "{"@ + sign + Modifier::from_rank(1).spec_token()
        + "}"@);
}

proof fn lemma_chord_modifiers_none(s: Shortcut, sign: Seq<char>)
    requires
        forall|i: int| 0 <= i < 8 ==> !s.modifiers.holds(i),
    ensures
        chord_modifiers(s, 8, sign) == Seq::<char>::empty(),
{
    assert(chord_modifiers(s, 8, sign) == chord_modifiers(s, 7, sign));
    assert(chord_modifiers(s, 7, sign) == chord_modifiers(s, 6, sign));
    assert(chord_modifiers(s, 6, sign) == chord_modifiers(s, 5, sign));
    assert(chord_modifiers(s, 5, sign) == chord_modifiers(s, 4, sign));
    assert(chord_modifiers(s, 4, sign) == chord_modifiers(s, 3, sign));
    assert(chord_modifiers(s, 3, sign) == chord_modifiers(s, 2, sign));
    assert(chord_modifiers(s, 2, sign) == chord_modifiers(s, 1, sign));
    assert(chord_modifiers(s, 1, sign) == chord_modifiers(s, 0, sign));
}

/// Inverting a key registers two macros that mirror each other: the bare key types
/// the key with right shift held, and the right-shifted key types the bare key.
pub proof fn lemma_inversion_bodies(
    m: Map<Shortcut, Seq<Fragment>>,
    keypad: Keypad,
    key: NonModifier,
    system: System,
)
    ensures
        inverted(m, keypad, key).dom().contains(bare(keypad, key)),
        inverted(m, keypad, key).dom().contains(right_shifted(keypad, key)),
        inverted(m, keypad, key)[bare(keypad, key)] == seq![
            Fragment::Chord(right_shifted(keypad, key)),
        ],
        inverted(m, keypad, key)[right_shifted(keypad, key)] == seq![
            Fragment::Chord(bare(keypad, key)),
        ],
        body_text(resolve(inverted(m, keypad, key)[bare(keypad, key)], system)) == shift_wrapped(
            keypad,
            key,
        ),
        body_text(resolve(inverted(m, keypad, key)[right_shifted(keypad, key)], system))
            == braced(keypad, key),
{
    let b = bare(keypad, key);
    let s = right_shifted(keypad, key);
    lemma_modifier_set_exists(Set::empty());
    lemma_modifier_set_exists(set![Modifier::RightShift]);
    assert(set![Modifier::RightShift].contains(Modifier::RightShift));
    assert(b != s);
    assert forall|i: int| 0 <= i < 8 implies !b.modifiers.holds(i) && (s.modifiers.holds(i) <==> i
        == 1) by {
        lemma_holds_member(b.modifiers, i);
        lemma_holds_member(s.modifiers, i);
    }
    let bs = seq![Fragment::Chord(s)];
    let ss = seq![Fragment::Chord(b)];
    let rb = resolve(bs, system);
    let rs = resolve(ss, system);
    assert(rb =~= seq![Emission::Chord(s)]);
    assert(rs =~= seq![Emission::Chord(b)]);
    assert(rb.drop_last() =~= Seq::<Emission>::empty());
    assert(rs.drop_last() =~= Seq::<Emission>::empty());
    assert(body_text(Seq::<Emission>::empty()) == Seq::<char>::empty());
    assert(rb.last() == Emission::Chord(s));
    assert(rs.last() == Emission::Chord(b));
    assert(body_text(rb) == body_text(rb.drop_last()) + emission_text(rb.last()));
    assert(body_text(rs) == body_text(rs.drop_last()) + emission_text(rs.last()));
    assert(body_text(rb) =~= chord_text(s));
    assert(body_text(rs) =~= chord_text(b));
    assert(Modifier::from_rank(1) == Modifier::RightShift);
    lemma_chord_modifiers_single(s, "-"@);
    lemma_chord_modifiers_single(s, "+"@);
    lemma_chord_modifiers_none(b, "-"@);
    lemma_chord_modifiers_none(b, "+"@);
    assert(chord_text(s) =~= shift_wrapped(keypad, key));
    assert(chord_text(b) =~= braced(keypad, key));
}

/// The rendering of a modifier of a layer in braces.
pub open spec fn braced_modifier(keypad: Keypad, m: Modifier) -> Seq<char> {
    "{"@ + KeyLayer { keypad_state: keypad, key: Key::Modifier(m) }.spec_token() + "}"@
}

/// The key with right shift pressed before it and released after it.
pub open spec fn shift_wrapped(keypad: Keypad, key: NonModifier) -> Seq<char> {
    "{"@ + "-"@ + Modifier::RightShift.spec_token() + "}"@ + braced(keypad, key) + "{"@ + "+"@
        + Modifier::RightShift.spec_token() + "}"@
}

/// The two lines of a layout that inverts one key and does nothing else: the bare key
/// types the key with right shift around it, and the key with right shift types the
/// bare key.
pub open spec fn inverted_text(keypad: Keypad, key: NonModifier) -> Seq<char> {
    braced(keypad, key) + ">"@ + shift_wrapped(keypad, key) + "\n"@ + (braced_modifier(
        keypad,
        Modifier::RightShift,
    ) + braced(keypad, key) + ">"@ + braced(keypad, key))
}

proof fn lemma_trigger_modifiers_single(s: Shortcut)
    requires
        forall|i: int| 0 <= i < 8 ==> (s.modifiers.holds(i) <==> i == 1),
    ensures
        trigger_modifiers(s, 8) == braced_modifier(s.keypad, Modifier::RightShift),
{
    assert(trigger_modifiers(s, 8) == trigger_modifiers(s, 7));
    assert(trigger_modifiers(s, 7) == trigger_modifiers(s, 6));
    assert(trigger_modifiers(s, 6) == trigger_modifiers(s, 5));
    assert(trigger_modifiers(s, 5) == trigger_modifiers(s, 4));
    assert(trigger_modifiers(s, 4) == trigger_modifiers(s, 3));
    assert(trigger_modifiers(s, 3) == trigger_modifiers(s, 2));
    assert(trigger_modifiers(s, 1) == trigger_modifiers(s, 0));
    assert(trigger_modifiers(s, 0) == Seq::<char>::empty());
    assert(Modifier::from_rank(1) == Modifier::RightShift);
    assert(trigger_modifiers(s, 2) =~= braced_modifier(s.keypad, Modifier::RightShift));
}

proof fn lemma_trigger_modifiers_none(s: Shortcut)
    requires
        forall|i: int| 0 <= i < 8 ==> !s.modifiers.holds(i),
    ensures
        trigger_modifiers(s, 8) == Seq::<char>::empty(),
{
    assert(trigger_modifiers(s, 8) == trigger_modifiers(s, 7));
    assert(trigger_modifiers(s, 7) == trigger_modifiers(s, 6));
    assert(trigger_modifiers(s, 6) == trigger_modifiers(s, 5));
    assert(trigger_modifiers(s, 5) == trigger_modifiers(s, 4));
    assert(trigger_modifiers(s, 4) == trigger_modifiers(s, 3));
    assert(trigger_modifiers(s, 3) == trigger_modifiers(s, 2));
    assert(trigger_modifiers(s, 2) == trigger_modifiers(s, 1));
    assert(trigger_modifiers(s, 1) == trigger_modifiers(s, 0));
}

proof fn lemma_inverted_entries(l: Layout, keypad: Keypad, key: NonModifier, system: System)
    requires
        l.wf(),
        l.remap_map() == Map::<KeyLayer, Option<KeyLayer>>::empty(),
        l.macro_map() == inverted(Map::empty(), keypad, key).map_values(
            |f: Seq<Fragment>| resolve(f, system),
        ),
    ensures
        l.remap_entries() == Seq::<Remap>::empty(),
        l.macro_entries() == seq![
            (bare(keypad, key), seq![Emission::Chord(right_shifted(keypad, key))]),
            (right_shifted(keypad, key), seq![Emission::Chord(bare(keypad, key))]),
        ],
{
    let m = inverted(Map::<Shortcut, Seq<Fragment>>::empty(), keypad, key);
    lemma_inversion_bodies(Map::empty(), keypad, key, system);
    let b = bare(keypad, key);
    let s = right_shifted(keypad, key);
    lemma_modifier_set_exists(Set::empty());
    lemma_modifier_set_exists(set![Modifier::RightShift]);
    assert(set![Modifier::RightShift].contains(Modifier::RightShift));
    lemma_orders();
    let rs = l.remap_entries();
    if rs.len() > 0 {
        lemma_sorted_unique_keys(rs, remap_order());
        lemma_lookup(rs, 0);
    }
    assert(rs =~= Seq::<Remap>::empty());
    assert(resolve(m[b], system) =~= seq![Emission::Chord(s)]);
    assert(resolve(m[s], system) =~= seq![Emission::Chord(b)]);
    let e = seq![(b, seq![Emission::Chord(s)]), (s, seq![Emission::Chord(b)])];
    lemma_empty_modifiers_first(b.modifiers, s.modifiers, Modifier::RightShift);
    assert(shortcut_lt(b, s));
    assert(sorted_by(e, trigger_order()));
    lemma_sorted_unique_keys(e, trigger_order());
    lemma_lookup(e, 0);
    lemma_lookup(e, 1);
    assert forall|k: Shortcut| #[trigger] table_map(e).dom().contains(k) <==> l.macro_map().dom().contains(
        k,
    ) by {
        if table_map(e).dom().contains(k) {
            let i = choose|i: int| 0 <= i < e.len() && e[i].0 == k;
            assert(i == 0 || i == 1);
        }
    }
    assert(table_map(e) =~= l.macro_map());
    lemma_sorted_determined(l.macro_entries(), e, trigger_order());
}

proof fn lemma_body_single(x: Shortcut)
    ensures
        body_text(seq![Emission::Chord(x)]) == chord_text(x),
{
    let e = seq![Emission::Chord(x)];
    assert(e.drop_last() =~= Seq::<Emission>::empty());
    assert(body_text(Seq::<Emission>::empty()) == Seq::<char>::empty());
    assert(e.last() == Emission::Chord(x));
    assert(body_text(e) == body_text(e.drop_last()) + emission_text(e.last()));
    assert(Seq::<char>::empty() + chord_text(x) =~= chord_text(x));
}

/// The two lines in the form they are computed: triggers, `>`, bodies.
proof fn lemma_inverted_lines(keypad: Keypad, key: NonModifier)
    ensures
        trigger_text(bare(keypad, key)) == braced(keypad, key),
        trigger_text(right_shifted(keypad, key)) == braced_modifier(keypad, Modifier::RightShift)
            + braced(keypad, key),
        chord_text(bare(keypad, key)) == braced(keypad, key),
        chord_text(right_shifted(keypad, key)) == shift_wrapped(keypad, key),
{
    let b = bare(keypad, key);
    let s = right_shifted(keypad, key);
    lemma_modifier_set_exists(Set::empty());
    lemma_modifier_set_exists(set![Modifier::RightShift]);
    assert(set![Modifier::RightShift].contains(Modifier::RightShift));
    assert forall|i: int| 0 <= i < 8 implies !b.modifiers.holds(i) && (s.modifiers.holds(i) <==> i
        == 1) by {
        lemma_holds_member(b.modifiers, i);
        lemma_holds_member(s.modifiers, i);
    }
    assert(Modifier::from_rank(1) == Modifier::RightShift);
    lemma_trigger_modifiers_none(b);
    lemma_trigger_modifiers_single(s);
    lemma_chord_modifiers_none(b, "-"@);
    lemma_chord_modifiers_none(b, "+"@);
    lemma_chord_modifiers_single(s, "-"@);
    lemma_chord_modifiers_single(s, "+"@);
    assert(trigger_text(b) =~= braced(keypad, key));
    assert(trigger_text(s) =~= braced_modifier(keypad, Modifier::RightShift) + braced(keypad, key));
    assert(chord_text(b) =~= braced(keypad, key));
    assert(chord_text(s) =~= shift_wrapped(keypad, key));
}

/// Inverting one key of a fresh configuration gives a layout of exactly two lines:
/// the bare key types the key with right shift held, and the right-shifted key types
/// the bare key.
pub proof fn lemma_invert_one_key_text(l: Layout, keypad: Keypad, key: NonModifier, system: System)
    requires
        l.wf(),
        l.remap_map() == Map::<KeyLayer, Option<KeyLayer>>::empty(),
        l.macro_map() == inverted(Map::empty(), keypad, key).map_values(
            |f: Seq<Fragment>| resolve(f, system),
        ),
    ensures
        l.text() == inverted_text(keypad, key),
{
    lemma_inverted_entries(l, keypad, key, system);
    let b = bare(keypad, key);
    let s = right_shifted(keypad, key);
    lemma_body_single(b);
    lemma_body_single(s);
    lemma_inverted_lines(keypad, key);
    let e = l.macro_entries();
    let line0 = braced(keypad, key) + ">"@ + shift_wrapped(keypad, key);
    let line1 = braced_modifier(keypad, Modifier::RightShift) + braced(keypad, key) + ">"@
        + braced(keypad, key);
    assert(macro_line(e[0]) == line0);
    assert(macro_line(e[1]) == line1);
    let lines = layout_lines(l.remap_entries(), e);
    assert(lines =~= seq![line0, line1]);
    assert(lines.drop_last() =~= seq![line0]);
    assert(join_lines(lines) == join_lines(lines.drop_last()) + "\n"@ + line1);
    assert(l.text() == line0 + "\n"@ + line1);
}
/// Remapping a key of the normal layer twice leaves exactly one line of the layout that
/// opens with that key's `[token]>`, and it is the line of the second registration.
pub proof fn lemma_remap_twice_one_line(
    c: Configure,
    l: Layout,
    k: Key,
    first: Option<KeyLayer>,
    second: Option<KeyLayer>,
)
    requires
        c.wf(),
        l.wf(),
        l.remap_map() == c.remap_map().insert(KeyLayer::off_spec(k), first).insert(
            KeyLayer::off_spec(k),
            second,
        ),
    ensures
        exists|i: int|
            0 <= i < layout_lines(l.remap_entries(), l.macro_entries()).len() && layout_lines(
                l.remap_entries(),
                l.macro_entries(),
            )[i] == remap_line((KeyLayer::off_spec(k), second)) && forall|j: int|
                0 <= j < layout_lines(l.remap_entries(), l.macro_entries()).len() && starts_with(
                    #[trigger] layout_lines(l.remap_entries(), l.macro_entries())[j],
                    remap_opening(KeyLayer::off_spec(k)),
                ) ==> j == i,
{
    let key = KeyLayer::off_spec(k);
    let rs = l.remap_entries();
    let lines = layout_lines(rs, l.macro_entries());
    lemma_remap_twice(c, l, key, first, second);
    let i = choose|i: int|
        0 <= i < rs.len() && rs[i].0 == key && lines[i] == remap_line((key, second)) && forall|
            j: int,
        | 0 <= j < rs.len() && #[trigger] rs[j].0 == key ==> j == i;
    assert forall|j: int|
        0 <= j < lines.len() && starts_with(#[trigger] lines[j], remap_opening(key)) implies j
        == i by {
        if j < rs.len() {
            assert(lines[j] == remap_line(rs[j]));
            lemma_remap_opening(rs[j], key);
            lemma_normal_token_unique(k, rs[j].0);
        } else {
            let me = l.macro_entries();
            assert(lines[j] == macro_line(me[j - rs.len()]));
            lemma_macro_line_not_remap(me[j - rs.len()], key);
        }
    }
}

} // verus!
