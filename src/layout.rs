//! A finished layout and its rendering as the keyboard's configuration text.
use vstd::prelude::*;
use vstd::string::*;
use crate::keys::{
    lemma_shortcut_irreflexive, lemma_shortcut_transitive, lemma_token_no_bracket,
    lemma_trigger_text_opens, shortcut_lt, trigger_text, Key, KeyLayer, NonModifier, Shortcut,
};
use crate::table::{
    lemma_lookup, lemma_sorted_determined, lemma_sorted_unique_keys, sorted_by, strict_order,
    table_map,
};
use crate::macros::{body_text, Emission, MacroOutput};

verus! {

/// A remap entry: a key and what it produces, or nothing for a dead key.
pub type Remap = (KeyLayer, Option<KeyLayer>);

/// Remap entries are ordered by source key: the normal layer first, each layer in
/// key order.
pub open spec fn remap_order() -> spec_fn(KeyLayer, KeyLayer) -> bool {
    |a: KeyLayer, b: KeyLayer| a.spec_code() < b.spec_code()
}

/// Macro entries are ordered by trigger.
pub open spec fn trigger_order() -> spec_fn(Shortcut, Shortcut) -> bool {
    |a: Shortcut, b: Shortcut| shortcut_lt(a, b)
}

/// Both table orders are strict orders.
pub proof fn lemma_orders()
    ensures
        strict_order(remap_order()),
        strict_order(trigger_order()),
{
    assert forall|a: Shortcut| !(#[trigger] trigger_order()(a, a)) by {
        lemma_shortcut_irreflexive(a);
    }
    assert forall|a: Shortcut, b: Shortcut, c: Shortcut|
        #[trigger] trigger_order()(a, b) && #[trigger] trigger_order()(b, c) implies trigger_order()(
        a,
        c,
    ) by {
        lemma_shortcut_transitive(a, b, c);
    }
}


/// The line of a remap entry: `[source]>[target]`, with `null` for a dead key.
pub open spec fn remap_line(e: Remap) -> Seq<char> {
    "["@ + e.0.spec_token() + "]>["@ + match e.1 {
        None => "null"@,
        Some(t) => t.spec_token(),
    } + "]"@
}

/// The line of a macro entry: the trigger, `>`, then the body.
pub open spec fn macro_line(e: (Shortcut, Seq<Emission>)) -> Seq<char> {
    trigger_text(e.0) + ">"@ + body_text(e.1)
}

/// Lines joined by newlines, with none after the last.
pub open spec fn join_lines(ls: Seq<Seq<char>>) -> Seq<char>
    decreases ls.len(),
{
    if ls.len() == 0 {
        Seq::empty()
    } else if ls.len() == 1 {
        ls[0]
    } else {
        join_lines(ls.drop_last()) + "\n"@ + ls.last()
    }
}

/// The lines of a layout: every remap line in table order, then every macro line.
pub open spec fn layout_lines(rs: Seq<Remap>, ms: Seq<(Shortcut, Seq<Emission>)>) -> Seq<
    Seq<char>,
> {
    rs.map_values(|e: Remap| remap_line(e)) + ms.map_values(
        |e: (Shortcut, Seq<Emission>)| macro_line(e),
    )
}

/// The configuration text of a layout.
pub open spec fn layout_text(rs: Seq<Remap>, ms: Seq<(Shortcut, Seq<Emission>)>) -> Seq<char> {
    join_lines(layout_lines(rs, ms))
}

/// The entries of a macro table, each with the macro's resolved fragments.
pub open spec fn output_entries(s: Seq<(Shortcut, MacroOutput)>) -> Seq<(Shortcut, Seq<Emission>)> {
    s.map_values(|e: (Shortcut, MacroOutput)| (e.0, e.1@))
}

/// A keyboard layout: key remappings and macros with every command resolved. It is
/// made once from a configuration and never changed.
#[derive(PartialEq, Eq, Clone, Debug)]
pub struct Layout {
    remappings: Vec<Remap>,
    macros: Vec<(Shortcut, MacroOutput)>,
}

impl Layout {
    /// The remap table, in ascending order of source key.
    pub closed spec fn remap_entries(&self) -> Seq<Remap> {
        self.remappings@
    }

    /// The macro table, in ascending order of trigger.
    pub closed spec fn macro_entries(&self) -> Seq<(Shortcut, Seq<Emission>)> {
        output_entries(self.macros@)
    }

    /// The remappings: each source key with its target, `None` for a dead key.
    pub open spec fn remap_map(&self) -> Map<KeyLayer, Option<KeyLayer>> {
        table_map(self.remap_entries())
    }

    /// The macros: each trigger with the macro's resolved fragments.
    pub open spec fn macro_map(&self) -> Map<Shortcut, Seq<Emission>> {
        table_map(self.macro_entries())
    }

    /// Both tables are sorted by key, so each key has at most one entry.
    pub open spec fn wf(&self) -> bool {
        &&& sorted_by(self.remap_entries(), remap_order())
        &&& sorted_by(self.macro_entries(), trigger_order())
    }

    /// The configuration text of the layout.
    pub open spec fn text(&self) -> Seq<char> {
        layout_text(self.remap_entries(), self.macro_entries())
    }

    /// The remap table, in ascending order of source key.
    pub fn remappings(&self) -> (r: &Vec<Remap>)
        ensures
            r@ == self.remap_entries(),
    {
        &self.remappings
    }

    /// The macro table, in ascending order of trigger.
    pub fn macros(&self) -> (r: &Vec<(Shortcut, MacroOutput)>)
        ensures
            output_entries(r@) == self.macro_entries(),
    {
        &self.macros
    }

    pub(crate) fn from_tables(remappings: Vec<Remap>, macros: Vec<(Shortcut, MacroOutput)>) -> (r:
        Layout)
        ensures
            r.remap_entries() == remappings@,
            r.macro_entries() == output_entries(macros@),
    {
        Layout { remappings, macros }
    }

    /// The configuration text: one line per remap, then one per macro.
    pub fn to_string(&self) -> (r: String)
        ensures
            r@ == self.text(),
    {
        let ghost lines = layout_lines(self.remap_entries(), self.macro_entries());
        let nr = self.remappings.len();
        let nm = self.macros.len();
        let mut out = String::new();
        let mut i: usize = 0;
        assert(lines.take(0) =~= Seq::<Seq<char>>::empty());
        while i < nr
            invariant
                nr == self.remappings@.len(),
                lines == layout_lines(self.remap_entries(), self.macro_entries()),
                i <= nr,
                out@ == join_lines(lines.take(i as int)),
            decreases nr - i,
        {
            let line = remap_string(&self.remappings[i]);
            assert(lines.take(i + 1).drop_last() =~= lines.take(i as int));
            assert(lines[i as int] == line@);
            if i > 0 {
                out.append("\n");
            } else {
                assert(out@ + line@ =~= line@);
            }
            out.append(line.as_str());
            i = i + 1;
        }
        let mut j: usize = 0;
        while j < nm
            invariant
                nr == self.remappings@.len(),
                nm == self.macros@.len(),
                lines == layout_lines(self.remap_entries(), self.macro_entries()),
                j <= nm,
                out@ == join_lines(lines.take(nr + j)),
            decreases nm - j,
        {
            let entry = &self.macros[j];
            let mut line = entry.0.to_string();
            line.append(">");
            let body = entry.1.to_string();
            line.append(body.as_str());
            assert(lines.take(nr + j + 1).drop_last() =~= lines.take(nr + j));
            assert(lines[nr + j] == line@);
            if nr > 0 || j > 0 {
                out.append("\n");
            } else {
                assert(out@ + line@ =~= line@);
            }
            out.append(line.as_str());
            j = j + 1;
        }
        assert(lines.take(nr + nm) =~= lines);
        out
    }
}

/// The text of a layout depends only on what its tables map each key to, not on the
/// order in which the entries were registered: two layouts with the same remappings
/// and the same macros render byte for byte the same text.
pub proof fn lemma_text_depends_on_contents(a: &Layout, b: &Layout)
    requires
        a.wf(),
        b.wf(),
        a.remap_map() == b.remap_map(),
        a.macro_map() == b.macro_map(),
    ensures
        a.text() == b.text(),
{
    lemma_orders();
    lemma_sorted_determined(a.remap_entries(), b.remap_entries(), remap_order());
    lemma_sorted_determined(a.macro_entries(), b.macro_entries(), trigger_order());
}

/// In a layout each remapped key has exactly one remap line: the line of its entry.
pub proof fn lemma_one_remap_line(l: &Layout, k: KeyLayer)
    requires
        l.wf(),
        l.remap_map().dom().contains(k),
    ensures
        exists|i: int|
            0 <= i < l.remap_entries().len() && l.remap_entries()[i].0 == k && layout_lines(
                l.remap_entries(),
                l.macro_entries(),
            )[i] == remap_line((k, l.remap_map()[k])) && forall|j: int|
                0 <= j < l.remap_entries().len() && #[trigger] l.remap_entries()[j].0 == k ==> j
                    == i,
{
    lemma_orders();
    let s = l.remap_entries();
    lemma_sorted_unique_keys(s, remap_order());
    let i = choose|i: int| 0 <= i < s.len() && s[i].0 == k;
    lemma_lookup(s, i);
    let lines = layout_lines(s, l.macro_entries());
    assert(lines[i] == remap_line(s[i]));
    assert(s[i] == (k, l.remap_map()[k]));
}

fn remap_string(e: &Remap) -> (r: String)
    ensures
        r@ == remap_line(*e),
{
    let mut out = String::from_str("[");
    let source = e.0.token();
    out.append(source.as_str());
    out.append("]>[");
    match e.1 {
        None => out.append("null"),
        Some(t) => {
            let target = t.token();
            out.append(target.as_str());
        },
    }
    out.append("]");
    out
}

/// The entries of the colemak table, as source and target key of the normal layer.
pub open spec fn colemak_pairs() -> Seq<(NonModifier, NonModifier)> {
    seq![
        (NonModifier::T, NonModifier::G),
        (NonModifier::R, NonModifier::P),
        (NonModifier::E, NonModifier::F),
        (NonModifier::G, NonModifier::D),
        (NonModifier::F, NonModifier::T),
        (NonModifier::D, NonModifier::S),
        (NonModifier::S, NonModifier::R),
        (NonModifier::Y, NonModifier::J),
        (NonModifier::U, NonModifier::L),
        (NonModifier::I, NonModifier::U),
        (NonModifier::O, NonModifier::Y),
        (NonModifier::P, NonModifier::SemiColon),
        (NonModifier::J, NonModifier::N),
        (NonModifier::K, NonModifier::E),
        (NonModifier::L, NonModifier::I),
        (NonModifier::SemiColon, NonModifier::O),
        (NonModifier::N, NonModifier::K),
    ]
}

/// The remap entry that sends one normal-layer key to another.
pub open spec fn normal_remap(p: (NonModifier, NonModifier)) -> Remap {
    (
        KeyLayer { keypad_state: crate::keys::Keypad::Off, key: Key::NonModifier(p.0) },
        Some(KeyLayer { keypad_state: crate::keys::Keypad::Off, key: Key::NonModifier(p.1) }),
    )
}

/// Key remappings for the colemak layout, applied over the normal layer.
pub fn colemak() -> (r: Vec<Remap>)
    ensures
        r@ == colemak_pairs().map_values(|p: (NonModifier, NonModifier)| normal_remap(p)),
{
    let pairs: Vec<(NonModifier, NonModifier)> = vec![
        (NonModifier::T, NonModifier::G),
        (NonModifier::R, NonModifier::P),
        (NonModifier::E, NonModifier::F),
        (NonModifier::G, NonModifier::D),
        (NonModifier::F, NonModifier::T),
        (NonModifier::D, NonModifier::S),
        (NonModifier::S, NonModifier::R),
        (NonModifier::Y, NonModifier::J),
        (NonModifier::U, NonModifier::L),
        (NonModifier::I, NonModifier::U),
        (NonModifier::O, NonModifier::Y),
        (NonModifier::P, NonModifier::SemiColon),
        (NonModifier::J, NonModifier::N),
        (NonModifier::K, NonModifier::E),
        (NonModifier::L, NonModifier::I),
        (NonModifier::SemiColon, NonModifier::O),
        (NonModifier::N, NonModifier::K),
    ];
    assert(pairs@ =~= colemak_pairs());
    let mut r: Vec<Remap> = Vec::new();
    let mut i: usize = 0;
    while i < pairs.len()
        invariant
            pairs@ == colemak_pairs(),
            i <= pairs@.len(),
            r@ == colemak_pairs().take(i as int).map_values(
                |p: (NonModifier, NonModifier)| normal_remap(p),
            ),
        decreases pairs@.len() - i,
    {
        let (a, b) = pairs[i];
        r.push((KeyLayer::off(Key::NonModifier(a)), Some(KeyLayer::off(Key::NonModifier(b)))));
        assert(r@ =~= colemak_pairs().take(i + 1).map_values(
            |p: (NonModifier, NonModifier)| normal_remap(p),
        ));
        i = i + 1;
    }
    assert(colemak_pairs().take(17) =~= colemak_pairs());
    r
}

/// `p` is a prefix of `line`.
pub open spec fn starts_with(line: Seq<char>, p: Seq<char>) -> bool {
    p.len() <= line.len() && line.subrange(0, p.len() as int) == p
}

/// How the remap line of a source key opens: `[`, the key's token, `]>`.
pub open spec fn remap_opening(k: KeyLayer) -> Seq<char> {
    "["@ + k.spec_token() + "]>"@
}

/// A remap line opens like the line of a key only if its source has that key's token.
pub proof fn lemma_remap_opening(e: Remap, k: KeyLayer)
    requires
        starts_with(remap_line(e), remap_opening(k)),
    ensures
        e.0.spec_token() == k.spec_token(),
{
    reveal_strlit("[");
    reveal_strlit("]>");
    reveal_strlit("]>[");
    reveal_strlit("]");
    reveal_strlit("null");
    lemma_token_no_bracket(e.0);
    lemma_token_no_bracket(k);
    let t1 = k.spec_token();
    let t2 = e.0.spec_token();
    let line = remap_line(e);
    let p = remap_opening(k);
    let head = line.subrange(0, p.len() as int);
    assert forall|i: int| 0 <= i < p.len() implies line[i] == p[i] by {
        assert(head[i] == line[i]);
    }
    if t1.len() < t2.len() {
        assert(p[1 + t1.len() as int] == ']');
        assert(line[1 + t1.len() as int] == t2[t1.len() as int]);
    } else if t2.len() < t1.len() {
        assert(line[1 + t2.len() as int] == ']');
        assert(p[1 + t2.len() as int] == t1[t2.len() as int]);
    }
    assert forall|i: int| 0 <= i < t1.len() implies t1[i] == t2[i] by {
        assert(p[1 + i] == t1[i]);
        assert(line[1 + i] == t2[i]);
    }
    assert(t1 =~= t2);
}

/// A macro line never opens like a remap line.
pub proof fn lemma_macro_line_not_remap(e: (Shortcut, Seq<Emission>), k: KeyLayer)
    ensures
        !starts_with(macro_line(e), remap_opening(k)),
{
    reveal_strlit("[");
    lemma_trigger_text_opens(e.0);
    let line = macro_line(e);
    let p = remap_opening(k);
    assert(line[0] == '{');
    assert(p[0] == '[');
    if starts_with(line, p) {
        assert(line.subrange(0, p.len() as int)[0] == line[0]);
    }
}

} // verus!
