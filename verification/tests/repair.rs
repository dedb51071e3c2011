use agentic_core::pipeline::repair_engine::SurgicalRepair;

#[test]
fn surgical_error_constructor_fix() {
    let code = "function test() {\n    throw new Error(Bad value ${x});\n}";
    let (fixed, count) = SurgicalRepair::fix_template_literals(code);
    assert_eq!(fixed, "function test() {\n    throw new Error(`Bad value ${x}`);\n}");
    assert_eq!(count, 1);
}

#[test]
fn surgical_quoted_and_console_fixes() {
    let code = "const msg = \"Hi ${name}\";\nconsole.log(value ${v});\n";
    let (fixed, count) = SurgicalRepair::fix_template_literals(code);
    assert_eq!(fixed, "const msg = `Hi ${name}`;\nconsole.log(`value ${v}`);\n");
    assert_eq!(count, 2);
}

#[test]
fn surgical_assignment_fix() {
    let (fixed, count) = SurgicalRepair::fix_template_literals("  const s = total ${n} items;");
    assert_eq!(fixed, "  const s = `total ${n} items`;");
    assert_eq!(count, 1);
}

#[test]
fn surgical_leaves_proper_code_alone() {
    let code = "let a = `ok ${x}`;\nplain line";
    let (fixed, count) = SurgicalRepair::fix_template_literals(code);
    assert_eq!(fixed, code);
    assert_eq!(count, 0);
}

#[test]
fn try_fix_template_literals_repairs_when_it_can() {
    let code = "const a = 1;\nthrow new Error(Invalid value ${a});";
    let (fixed, count) = SurgicalRepair::try_fix_template_literals(code).unwrap();
    assert_eq!((fixed.clone(), count), SurgicalRepair::fix_template_literals(code));
    assert_eq!(count, 1);
    assert!(fixed.contains("`"));
}
