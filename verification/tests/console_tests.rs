use scene_core::console::decimal_text;
use scene_core::console::print_line;
use scene_core::console::Fragment;
use scene_core::scalar::Scalar;
use scene_core::script_manager::ScriptManager;
use scene_core::variant::Foreign;
use scene_core::variant::Intrinsic;
use scene_core::variant::Variant;

fn written(fragments: &Vec<Fragment>) -> String {
    let mut out = String::new();
    for fragment in fragments {
        match fragment {
            Fragment::Text(text) => out.push_str(text),
            Fragment::Number(n) => out.push_str(&format!("{}", f64::from_bits(n.to_bits()))),
        }
    }
    out
}

fn text(s: &str) -> Variant {
    Variant::text(s)
}

#[test]
fn print_with_separator() {
    let line = print_line(&vec![text("a"), text("b"), text("sep=-")]);
    assert_eq!(written(&line), "a-b\n");
}

#[test]
fn print_separates_with_comma_and_space() {
    let line = print_line(&vec![text("a"), Variant::Integer(2), Variant::Boolean(true)]);
    assert_eq!(written(&line), "a, 2, true\n");
}

#[test]
fn print_with_end() {
    let line = print_line(&vec![text("a"), text("b"), text("end=!")]);
    assert_eq!(written(&line), "a, b!");
}

#[test]
fn print_with_separator_and_end_in_either_order() {
    let one = print_line(&vec![text("a"), text("b"), text("sep=+"), text("end=.")]);
    assert_eq!(written(&one), "a+b.");
    let other = print_line(&vec![text("a"), text("b"), text("end=."), text("sep=+")]);
    assert_eq!(written(&other), "a+b.");
}

#[test]
fn print_takes_only_trailing_options() {
    let line = print_line(&vec![text("sep=-"), text("a"), text("b")]);
    assert_eq!(written(&line), "sep=-, a, b\n");
    let twice = print_line(&vec![text("a"), text("sep=1"), text("sep=2")]);
    assert_eq!(written(&twice), "a2sep=1\n");
}

#[test]
fn print_of_nothing_is_an_empty_line() {
    assert_eq!(written(&print_line(&vec![])), "\n");
    assert_eq!(written(&print_line(&vec![text("sep=-")])), "\n");
    assert_eq!(written(&print_line(&vec![text("end=")])), "");
}

#[test]
fn print_with_empty_separator() {
    let line = print_line(&vec![text("a"), text("b"), text("sep=")]);
    assert_eq!(written(&line), "ab\n");
}

#[test]
fn a_number_is_left_to_the_host() {
    let half = Scalar::from_bits(0.5f64.to_bits());
    let out = ScriptManager::stringify(&Variant::Number(half), 0);
    assert_eq!(out, vec![Fragment::Number(half)]);
    let line = print_line(&vec![Variant::Number(half), text("x")]);
    assert_eq!(written(&line), "0.5, x\n");
}

#[test]
fn stringify_of_plain_values() {
    assert_eq!(written(&ScriptManager::stringify(&Variant::Nil, 0)), "nil");
    assert_eq!(written(&ScriptManager::stringify(&Variant::Boolean(true), 0)), "true");
    assert_eq!(written(&ScriptManager::stringify(&Variant::Boolean(false), 3)), "false");
    assert_eq!(written(&ScriptManager::stringify(&Variant::Integer(-120), 0)), "-120");
    assert_eq!(written(&ScriptManager::stringify(&text("plain"), 0)), "plain");
    assert_eq!(written(&ScriptManager::stringify(&Variant::Error("boom".to_string()), 0)), "boom");
    assert_eq!(
        written(&ScriptManager::stringify(&Variant::Function(Intrinsic::Script), 0)),
        "<function>(anonymous)"
    );
    assert_eq!(written(&ScriptManager::stringify(&Variant::Foreign(Foreign::LightUserData), 0)), "<lightuserdata>");
    assert_eq!(written(&ScriptManager::stringify(&Variant::Foreign(Foreign::UserData), 0)), "<userdata>");
    assert_eq!(written(&ScriptManager::stringify(&Variant::Foreign(Foreign::Thread), 0)), "<thread>");
    assert_eq!(written(&ScriptManager::stringify(&Variant::Foreign(Foreign::Other), 0)), "<other>");
}

#[test]
fn stringify_of_a_table() {
    let table = Variant::Table(vec![
        Variant::entry("x", Variant::Integer(1)),
        Variant::entry("y", text("two")),
    ]);
    assert_eq!(written(&ScriptManager::stringify(&table, 0)), "{\n\tx: 1\n\ty: two\n}");
    assert_eq!(written(&ScriptManager::stringify(&table, 1)), "{\n\t\tx: 1\n\t\ty: two\n\t}");
    assert_eq!(written(&ScriptManager::stringify(&Variant::Table(vec![]), 0)), "{\n}");
}

#[test]
fn stringify_of_nested_tables() {
    let inner = Variant::Table(vec![(Variant::Integer(1), Variant::Boolean(false))]);
    let outer = Variant::Table(vec![Variant::entry("in", inner)]);
    assert_eq!(written(&ScriptManager::stringify(&outer, 0)), "{\n\tin: {\n\t\t1: false\n\t}\n}");
}

#[test]
fn decimal_text_of_integers() {
    assert_eq!(decimal_text(0), "0");
    assert_eq!(decimal_text(7), "7");
    assert_eq!(decimal_text(10), "10");
    assert_eq!(decimal_text(-1), "-1");
    assert_eq!(decimal_text(1234567890), "1234567890");
    assert_eq!(decimal_text(i64::MAX), "9223372036854775807");
    assert_eq!(decimal_text(i64::MIN), "-9223372036854775808");
}
