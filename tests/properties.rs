use kinesis_layout::configure::Configure;
use kinesis_layout::keys::{
    keypad_alias_token, Key, KeyLayer, KeyPress, Keypad, Modifier, ModifierSet, NonModifier,
    Shortcut, MODIFIER_COUNT, NONMODIFIER_COUNT,
};
use kinesis_layout::layout::colemak;
use kinesis_layout::macros::{
    char_to_key, is_typeable, presses_string, requires_shift, string_to_key_presses, Command,
    MacroBuilder, System,
};

fn nm(k: NonModifier) -> Key {
    Key::NonModifier(k)
}

fn count(haystack: &str, needle: &str) -> usize {
    haystack.matches(needle).count()
}

#[test]
fn keypad_alias_tokens_are_distinct() {
    let mut seen: Vec<(NonModifier, String)> = Vec::new();
    for i in 0..NONMODIFIER_COUNT {
        let k = NonModifier::at_rank(i);
        if keypad_alias_token(k).is_some() {
            let t = KeyLayer::on(nm(k)).token();
            for (other, ot) in &seen {
                assert_ne!(ot, &t, "{:?} and {:?}", other, k);
            }
            seen.push((k, t));
        }
    }
    assert_eq!(seen.len(), 19);
}

#[test]
fn every_key_has_a_token_in_both_layers() {
    for layer in [Keypad::Off, Keypad::On] {
        for i in 0..NONMODIFIER_COUNT {
            assert!(!KeyLayer::new(layer, nm(NonModifier::at_rank(i))).token().is_empty());
        }
        for i in 0..MODIFIER_COUNT {
            assert!(!KeyLayer::new(layer, Key::Modifier(Modifier::at_rank(i))).token().is_empty());
        }
    }
}

#[test]
fn key_tokens_by_layer() {
    assert_eq!(KeyLayer::off(nm(NonModifier::M)).token(), "m");
    assert_eq!(KeyLayer::on(nm(NonModifier::M)).token(), "kp1");
    assert_eq!(KeyLayer::on(nm(NonModifier::Space)).token(), "kp0");
    assert_eq!(KeyLayer::on(nm(NonModifier::Seven)).token(), "numlk");
    assert_eq!(KeyLayer::on(nm(NonModifier::Eight)).token(), "k=");
    assert_eq!(KeyLayer::on(nm(NonModifier::Enter)).token(), "kp-enter");
    assert_eq!(KeyLayer::on(nm(NonModifier::A)).token(), "kp-a");
    assert_eq!(KeyLayer::on(Key::Modifier(Modifier::LeftShift)).token(), "kp-lshift");
    assert_eq!(KeyLayer::off(nm(NonModifier::F11)).token(), "f11");
    assert_eq!(KeyLayer::off(nm(NonModifier::International)).token(), "intl-\\");
    assert_eq!(KeyLayer::on(nm(NonModifier::International)).token(), "kp-insert");
    assert_eq!(KeyLayer::on(nm(NonModifier::Insert)).token(), "kp-insert");
}

#[test]
fn same_calls_give_same_text() {
    let build = || {
        Configure::new()
            .remap(nm(NonModifier::Q), nm(NonModifier::W))
            .dead_key(nm(NonModifier::CapsLock))
            .invert_key(NonModifier::Five)
            .make()
            .to_string()
    };
    assert_eq!(build(), build());
}

#[test]
fn text_does_not_depend_on_call_order() {
    let a = Configure::new()
        .remap(nm(NonModifier::Z), nm(NonModifier::A))
        .remap_keypad(nm(NonModifier::B), nm(NonModifier::C))
        .remap(nm(NonModifier::A), nm(NonModifier::Z))
        .invert_key(NonModifier::Two)
        .invert_keypad_key(NonModifier::One)
        .make()
        .to_string();
    let b = Configure::new()
        .invert_keypad_key(NonModifier::One)
        .remap(nm(NonModifier::A), nm(NonModifier::Z))
        .invert_key(NonModifier::Two)
        .remap_keypad(nm(NonModifier::B), nm(NonModifier::C))
        .remap(nm(NonModifier::Z), nm(NonModifier::A))
        .make()
        .to_string();
    assert_eq!(a, b);
    assert!(a.starts_with("[a]>[z]\n[z]>[a]\n[kp-b]>[kp-c]\n"));
}

#[test]
fn remapping_twice_keeps_the_second() {
    let text = Configure::new()
        .remap(nm(NonModifier::A), nm(NonModifier::B))
        .remap(nm(NonModifier::A), nm(NonModifier::C))
        .make()
        .to_string();
    assert_eq!(text, "[a]>[c]");
}

#[test]
fn dead_key_after_remap_replaces_it() {
    let text = Configure::new()
        .remap_all(nm(NonModifier::Tab), nm(NonModifier::Space))
        .keypad_dead_key(nm(NonModifier::Tab))
        .make()
        .to_string();
    assert_eq!(text, "[tab]>[space]\n[kp-tab]>[null]");
}

#[test]
fn removing_remaps() {
    let text = Configure::new()
        .with_remappings(colemak())
        .remove_remap(nm(NonModifier::T))
        .remap_keypad(nm(NonModifier::J), nm(NonModifier::K))
        .remove_remap_keypad(nm(NonModifier::J))
        .remove_remap(nm(NonModifier::Q))
        .make()
        .to_string();
    assert_eq!(text.lines().count(), 16);
    assert!(!text.contains("[t]>"));
    assert!(!text.contains("kp"));
}

#[test]
fn remap_across_layers() {
    let text = Configure::new()
        .remap_permissive(KeyLayer::off(nm(NonModifier::Space)), KeyLayer::on(nm(NonModifier::Space)))
        .make()
        .to_string();
    assert_eq!(text, "[space]>[kp0]");
}

#[test]
fn empty_configuration_is_empty_text() {
    assert_eq!(Configure::new().make().to_string(), "");
    assert_eq!(Configure::default().make().to_string(), "");
}

#[test]
fn inverting_a_digit_mirrors_the_bodies() {
    let text = Configure::new().invert_key(NonModifier::Three).make().to_string();
    assert_eq!(text, "{3}>{-rshift}{3}{+rshift}\n{rshift}{3}>{3}");
}

#[test]
fn inverting_a_keypad_key() {
    let text = Configure::new().invert_keypad_key(NonModifier::M).make().to_string();
    assert_eq!(text, "{kp1}>{-rshift}{kp1}{+rshift}\n{kp-rshift}{kp1}>{kp1}");
}

fn resolved(c: Command, s: System) -> String {
    let m = MacroBuilder::new().with_command(c).make();
    Configure::new()
        .set_system(s)
        .with_macro(Shortcut::keypad_off(ModifierSet::new(), NonModifier::F1), m)
        .make()
        .to_string()
}

#[test]
fn commands_resolve_on_every_platform() {
    let cases = [
        (Command::Copy, "{-lctrl}{c}{+lctrl}", "{-rwin}{c}{+rwin}"),
        (Command::Paste, "{-lctrl}{v}{+lctrl}", "{-rwin}{v}{+rwin}"),
        (Command::Cut, "{-lctrl}{x}{+lctrl}", "{-rwin}{x}{+rwin}"),
        (Command::Undo, "{-lctrl}{z}{+lctrl}", "{-rwin}{z}{+rwin}"),
        (Command::JumpForward, "{-lctrl}{right}{+lctrl}", "{-lalt}{right}{+lalt}"),
        (Command::JumpBack, "{-lctrl}{c}{+lctrl}", "{-lalt}{left}{+lalt}"),
        (Command::LineEnd, "{end}", "{-rwin}{left}{+rwin}"),
        (Command::LineStart, "{home}", "{-rwin}{right}{+rwin}"),
    ];
    for (c, pc, mac) in cases {
        assert_eq!(resolved(c, System::PC), format!("{{f1}}>{}", pc));
        assert_eq!(resolved(c, System::Windows), format!("{{f1}}>{}", pc));
        assert_eq!(resolved(c, System::Mac), format!("{{f1}}>{}", mac));
    }
}

#[test]
fn command_shortcuts() {
    let s = Command::Copy.to_shortcut(System::Mac);
    assert_eq!(s, Shortcut::keypad_off(ModifierSet::from_slice(&[Modifier::RightWindowsCommand]), NonModifier::C));
    let s = Command::LineStart.to_shortcut(System::PC);
    assert_eq!(s, Shortcut::keypad_off(ModifierSet::new(), NonModifier::Home));
    assert_eq!(System::default(), System::PC);
    assert!(System::Mac.is_mac());
    assert!(!System::Windows.is_mac());
}

#[test]
fn shift_is_pressed_once_per_run() {
    let keys = string_to_key_presses("ABcDE!f");
    let text = presses_string(&keys);
    assert_eq!(count(&text, "{-lshift}"), 2);
    assert_eq!(count(&text, "{+lshift}"), 2);
    assert_eq!(
        text,
        "{-lshift}{a}{b}{+lshift}{c}{-lshift}{d}{e}{1}{+lshift}{f}"
    );
}

#[test]
fn shift_released_at_the_end() {
    let text = presses_string(&string_to_key_presses("aB"));
    assert_eq!(text, "{a}{-lshift}{b}{+lshift}");
    assert_eq!(presses_string(&string_to_key_presses("")), "");
}

#[test]
fn character_table() {
    assert_eq!(char_to_key('q'), Some(NonModifier::Q));
    assert_eq!(char_to_key('Q'), Some(NonModifier::Q));
    assert_eq!(char_to_key('\n'), Some(NonModifier::Enter));
    assert_eq!(char_to_key('\t'), Some(NonModifier::Tab));
    assert_eq!(char_to_key(' '), Some(NonModifier::Space));
    assert_eq!(char_to_key('~'), Some(NonModifier::Backtick));
    assert_eq!(char_to_key('0'), Some(NonModifier::Zero));
    assert_eq!(char_to_key('é'), None);
    assert!(requires_shift('?'));
    assert!(requires_shift('Z'));
    assert!(!requires_shift('z'));
    assert!(!requires_shift('/'));
    assert!(is_typeable("Hello, world!\n"));
    assert!(!is_typeable("naïve"));
    assert_eq!(
        string_to_key_presses("a{"),
        vec![KeyPress::not_shifted(NonModifier::A), KeyPress::shifted(NonModifier::OpenBracket)]
    );
}

#[test]
fn chord_presses_and_releases_in_sorted_order() {
    let m = MacroBuilder::new()
        .with_shortcut(Shortcut::keypad_off(
            ModifierSet::from_slice(&[Modifier::LeftAlt, Modifier::RightShift]),
            NonModifier::T,
        ))
        .make();
    let text = Configure::new()
        .with_macro(Shortcut::keypad_on(ModifierSet::new(), NonModifier::K), m)
        .make()
        .to_string();
    assert_eq!(text, "{kp5}>{-rshift}{-lalt}{t}{+rshift}{+lalt}");
}

#[test]
fn cursor_moves_and_a_later_macro_replaces_an_earlier() {
    let trigger = Shortcut::keypad_off(ModifierSet::from_slice(&[Modifier::LeftControl]), NonModifier::G);
    let text = Configure::new()
        .with_macro(trigger, MacroBuilder::from_string("x").make())
        .with_macro(
            trigger,
            MacroBuilder::new().cursor_right(2).cursor_up(1).cursor_down(0).make(),
        )
        .make()
        .to_string();
    assert_eq!(text, "{lctrl}{g}>{right}{right}{up}");
}

#[test]
fn triggers_sort_by_layer_then_modifiers_then_key() {
    let one = |ms: &[Modifier], k: NonModifier, on: bool| {
        let set = ModifierSet::from_slice(ms);
        if on { Shortcut::keypad_on(set, k) } else { Shortcut::keypad_off(set, k) }
    };
    let body = || MacroBuilder::from_string("a").make();
    let text = Configure::new()
        .with_macro(one(&[], NonModifier::A, true), body())
        .with_macro(one(&[Modifier::RightShift], NonModifier::A, false), body())
        .with_macro(one(&[Modifier::LeftShift, Modifier::RightAlt], NonModifier::A, false), body())
        .with_macro(one(&[Modifier::LeftShift], NonModifier::B, false), body())
        .with_macro(one(&[], NonModifier::B, false), body())
        .make()
        .to_string();
    let triggers: Vec<&str> = text.lines().map(|l| l.split('>').next().unwrap()).collect();
    assert_eq!(
        triggers,
        vec!["{b}", "{lshift}{b}", "{lshift}{ralt}{a}", "{rshift}{a}", "{kp-a}"]
    );
}

#[test]
fn modifier_sets() {
    let s = ModifierSet::from_slice(&[Modifier::LeftAlt, Modifier::LeftAlt]);
    assert_eq!(s, ModifierSet::new().with(Modifier::LeftAlt));
    assert!(s.contains(Modifier::LeftAlt));
    assert!(!s.contains(Modifier::RightAlt));
    let mut t = ModifierSet::new();
    t.insert(Modifier::RightAlt);
    assert!(t.contains(Modifier::RightAlt));
    assert_eq!(
        Shortcut::keypad_on(ModifierSet::from_slice(&[Modifier::RightShift]), NonModifier::M).to_string(),
        "{kp-rshift}{kp1}"
    );
}

#[test]
fn end_to_end_scenario() {
    let text = Configure::new()
        .remap(nm(NonModifier::A), nm(NonModifier::LeftArrow))
        .remap_keypad(nm(NonModifier::Enter), nm(NonModifier::Space))
        .dead_key(nm(NonModifier::Backtick))
        .invert_numbers()
        .with_macro(
            Shortcut::keypad_off(
                ModifierSet::from_slice(&[Modifier::RightShift, Modifier::LeftAlt]),
                NonModifier::T,
            ),
            MacroBuilder::new().with_string("www.test.com\nTHANKS").cursor_left(6).make(),
        )
        .make()
        .to_string();
    let lines: Vec<&str> = text.lines().collect();
    assert!(lines.contains(&"[a]>[left]"));
    assert!(lines.contains(&"[kp-enter]>[kp0]"));
    assert!(lines.contains(&"[`]>[null]"));
    for d in 1..=9 {
        let plain = format!("{{{}}}>{{-rshift}}{{{}}}{{+rshift}}", d, d);
        let shifted = format!("{{rshift}}{{{}}}>{{{}}}", d, d);
        assert!(lines.contains(&plain.as_str()));
        assert!(lines.contains(&shifted.as_str()));
    }
    assert!(lines.contains(&"{rshift}{lalt}{t}>{w}{w}{w}{.}{t}{e}{s}{t}{.}{c}{o}{m}{enter}{-lshift}{t}{h}{a}{n}{k}{s}{+lshift}{left}{left}{left}{left}{left}{left}"));
    assert_eq!(lines.len(), 3 + 18 + 1);
}

#[test]
fn layout_tables_are_readable() {
    let c = Configure::new()
        .remap(nm(NonModifier::Z), nm(NonModifier::A))
        .dead_key(nm(NonModifier::B))
        .invert_key(NonModifier::Four);
    let l = c.make();
    let r = l.remappings();
    assert_eq!(r.len(), 2);
    assert_eq!(r[0], (KeyLayer::off(nm(NonModifier::B)), None));
    assert_eq!(r[1], (KeyLayer::off(nm(NonModifier::Z)), Some(KeyLayer::off(nm(NonModifier::A)))));
    let m = l.macros();
    assert_eq!(m.len(), 2);
    assert_eq!(m[0].0, Shortcut::keypad_off(ModifierSet::new(), NonModifier::Four));
    assert_eq!(m[0].1.to_string(), "{-rshift}{4}{+rshift}");
    assert_eq!(m[1].1.to_string(), "{4}");
    assert_eq!(l.clone(), l);
    assert_eq!(c.clone(), c);
    assert_eq!(c.make(), l);
}

#[test]
fn macro_text_shift_markers_count_runs() {
    let m = MacroBuilder::from_string("HI there, WORLD!").make().to_macro_output(System::Mac);
    let text = m.to_string();
    assert_eq!(count(&text, "{-lshift}"), 2);
    assert_eq!(count(&text, "{+lshift}"), 2);
}

#[test]
fn inverting_zero_alone() {
    let text = Configure::new().invert_key(NonModifier::Zero).make().to_string();
    assert_eq!(text, "{0}>{-rshift}{0}{+rshift}\n{rshift}{0}>{0}");
}
