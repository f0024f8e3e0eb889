use jel::machine::Machine;
use jel::parser::Parser;
use jel::parser::Token;
use jel::semantics::DEFAULT_FUEL;
use jel::semantics::ErrorKind;

fn tok(s: &str) -> Token {
    Token::String(s.to_string())
}

fn text(t: &Token) -> String {
    match t {
        Token::String(s) => s.clone(),
        _ => panic!("expected a string token"),
    }
}

fn run(src: &str) -> Machine {
    let mut parser = Parser::new(src);
    parser.parse();
    assert!(parser.error.is_none(), "unexpected syntax error");
    let mut machine = Machine::new(parser.output);
    machine.process_whole();
    machine
}

#[test]
fn variable_consumption() {
    // let(x "5") get(x) get(x): the first get returns "5" and removes x,
    // the second reports a missing variable and yields ""
    let mut m = Machine::new(Vec::new());
    m.let_(vec![tok("x"), tok("5")], DEFAULT_FUEL);
    let first = m.get(vec![tok("x")], DEFAULT_FUEL);
    assert_eq!(text(&first), "5");
    assert!(m.variables.is_empty());
    let second = m.get(vec![tok("x")], DEFAULT_FUEL);
    assert_eq!(text(&second), "");
    assert_eq!(m.errors, vec![ErrorKind::MissingVariable]);
    assert!(!m.halted);
}

#[test]
fn reference_extension() {
    // let(x "5") upgrade(x) get(x) get(x): both gets return "5"; a third
    // reports missing and yields ""
    let mut m = Machine::new(Vec::new());
    m.let_(vec![tok("x"), tok("5")], DEFAULT_FUEL);
    let up = m.upgrade(vec![tok("x")], DEFAULT_FUEL);
    assert_eq!(text(&up), "x");
    assert_eq!(text(&m.get(vec![tok("x")], DEFAULT_FUEL)), "5");
    assert_eq!(text(&m.get(vec![tok("x")], DEFAULT_FUEL)), "5");
    let third = m.get(vec![tok("x")], DEFAULT_FUEL);
    assert_eq!(text(&third), "");
    assert_eq!(m.errors, vec![ErrorKind::MissingVariable]);
}

#[test]
fn clone_never_consumes() {
    let mut m = Machine::new(Vec::new());
    m.let_(vec![tok("x"), tok("5")], DEFAULT_FUEL);
    for _ in 0..3 {
        let r = m.clone_cmd(vec![tok("x")], DEFAULT_FUEL);
        assert_eq!(text(&r), "5");
        assert_eq!(m.variables.len(), 1);
        assert_eq!(m.variables[0].ref_count, 1);
    }
    assert_eq!(text(&m.get(vec![tok("x")], DEFAULT_FUEL)), "5");
    assert!(m.errors.is_empty());
}

#[test]
fn falsiness_closed_set() {
    for falsy in ["", "0", "nil", "false", "0.0"] {
        let mut m = Machine::new(Vec::new());
        let r = m.if_(vec![tok(falsy), tok("yes"), tok("no")], DEFAULT_FUEL);
        assert_eq!(text(&r), "no", "expected the else branch for {:?}", falsy);
    }
    let mut m = Machine::new(Vec::new());
    let r = m.if_(vec![tok("1"), tok("yes"), tok("no")], DEFAULT_FUEL);
    assert_eq!(text(&r), "yes");
}

#[test]
fn for_counts_and_iterates_characters() {
    let m = run("for(3 i do(print(get(i))))");
    assert_eq!(m.output, vec!["0", "1", "2"]);
    let m2 = run("for(\"ab\" c do(print(get(c))))");
    assert_eq!(m2.output, vec!["a", "b"]);
}

#[test]
fn while_counts_down() {
    let m = run("let(n 3) while(clone(n) do(print(clone(n)) let(n -(clone(n) 1))))");
    assert_eq!(m.output, vec!["3", "2", "1"]);
    assert!(!m.halted);
}

#[test]
fn print_joins_with_spaces() {
    let m = run("print(a b c)");
    assert_eq!(m.output, vec!["a b c"]);
}

#[test]
fn concat_command_joins() {
    let m = run("print((x y))");
    assert_eq!(m.output, vec!["x y"]);
}

#[test]
fn do_returns_last_result() {
    let mut m = Machine::new(Vec::new());
    let r = m.do_(vec![tok("a"), tok("b")], DEFAULT_FUEL);
    assert_eq!(text(&r), "b");
}

#[test]
fn function_call_binds_arguments() {
    let m = run("function(inc (\"a\") +(get(a) 1)) print(call(inc 4))");
    assert_eq!(m.output, vec!["5"]);
}

#[test]
fn unknown_name_falls_through_to_function_call() {
    let m = run("function(twice (\"a\") *(get(a) 2)) print(twice(3))");
    assert_eq!(m.output, vec!["6"]);
}

#[test]
fn unknown_command_is_fatal() {
    let m = run("bogus(1) print(never)");
    assert!(m.halted);
    assert_eq!(m.errors, vec![ErrorKind::UnknownCommand]);
    assert!(m.output.is_empty());
}

#[test]
fn call_arity_mismatch_is_reported() {
    let m = run("function(inc (\"a\") +(get(a) 1)) print(call(inc))");
    assert!(!m.halted);
    assert_eq!(m.errors, vec![ErrorKind::ArityMismatch]);
    assert_eq!(m.output, vec![""]);
}

#[test]
fn call_of_missing_function_is_reported() {
    let mut m = Machine::new(Vec::new());
    let r = m.call(vec![tok("nope")], DEFAULT_FUEL);
    assert_eq!(text(&r), "");
    assert_eq!(m.errors, vec![ErrorKind::MissingFunction]);
}

#[test]
fn wrong_argument_count_is_fatal() {
    let m = run("let(x) print(never)");
    assert!(m.halted);
    assert_eq!(m.errors, vec![ErrorKind::ArgCount]);
    assert!(m.output.is_empty());
}

#[test]
fn once_halted_nothing_changes() {
    let mut m = run("let(x)");
    assert!(m.halted);
    // a whole command handed to the stopped machine does nothing
    let mut parser = Parser::new("let(y 1) print(hey)");
    parser.parse();
    for cmd in parser.output {
        let r = m.process(cmd);
        assert_eq!(text(&r), "nil");
    }
    assert!(m.variables.is_empty());
    assert!(m.output.is_empty());
    assert_eq!(m.errors, vec![ErrorKind::ArgCount]);
}

#[test]
fn out_of_fuel_is_fatal() {
    let mut parser = Parser::new("print(x)");
    parser.parse();
    let mut m = Machine::new(Vec::new());
    let cmd = parser.output.into_iter().next().unwrap();
    let _ = m.process_fueled(cmd, 0);
    assert!(m.halted);
    assert_eq!(m.errors, vec![ErrorKind::OutOfFuel]);
}

#[test]
fn dylib_registers_and_native_reports_bridge() {
    let mut m = Machine::new(Vec::new());
    let r = m.native(vec![tok("lib"), tok("f"), tok("x")], DEFAULT_FUEL);
    assert_eq!(text(&r), "");
    assert_eq!(m.errors, vec![ErrorKind::MissingLibrary]);
    m.dylib(vec![tok("lib"), tok("/tmp/does-not-matter.so")], DEFAULT_FUEL);
    assert_eq!(m.dynamic_libs.len(), 1);
    assert_eq!(m.dynamic_libs[0].key, "lib");
    let r2 = m.native(vec![tok("lib"), tok("f"), tok("x")], DEFAULT_FUEL);
    assert_eq!(text(&r2), "");
    assert_eq!(m.errors, vec![ErrorKind::MissingLibrary, ErrorKind::NativeUnavailable]);
}

#[test]
fn dylib_replaces_by_name() {
    let mut m = Machine::new(Vec::new());
    m.dylib(vec![tok("lib"), tok("one.so")], DEFAULT_FUEL);
    m.dylib(vec![tok("lib"), tok("two.so")], DEFAULT_FUEL);
    assert_eq!(m.dynamic_libs.len(), 1);
    assert_eq!(m.dynamic_libs[0].path, "two.so");
}

#[test]
fn file_store_round_trip() {
    let mut m = Machine::new(Vec::new());
    assert_eq!(text(&m.existsf(vec![tok("f")], DEFAULT_FUEL)), "false");
    assert_eq!(text(&m.readf(vec![tok("f")], DEFAULT_FUEL)), "nil");
    assert_eq!(text(&m.writef(vec![tok("f"), tok("body")], DEFAULT_FUEL)), "true");
    assert_eq!(text(&m.existsf(vec![tok("f")], DEFAULT_FUEL)), "true");
    assert_eq!(text(&m.readf(vec![tok("f")], DEFAULT_FUEL)), "body");
    assert_eq!(text(&m.makef(vec![tok("f")], DEFAULT_FUEL)), "false");
    assert_eq!(text(&m.makef(vec![tok("g")], DEFAULT_FUEL)), "true");
    assert_eq!(text(&m.readf(vec![tok("g")], DEFAULT_FUEL)), "");
    assert_eq!(text(&m.removef(vec![tok("f")], DEFAULT_FUEL)), "true");
    assert_eq!(text(&m.removef(vec![tok("f")], DEFAULT_FUEL)), "false");
    assert_eq!(text(&m.existsf(vec![tok("f")], DEFAULT_FUEL)), "false");
}

#[test]
fn input_consumes_queued_lines() {
    let mut m = Machine::new(Vec::new());
    m.feed_input("hello".to_string());
    let r = m.input(vec![tok("? ")], DEFAULT_FUEL);
    assert_eq!(text(&r), "hello");
    assert_eq!(m.output, vec!["? "]);
    let r2 = m.input(vec![tok("? ")], DEFAULT_FUEL);
    assert_eq!(text(&r2), "");
}

#[test]
fn sleep_yields_nil() {
    let mut m = Machine::new(Vec::new());
    let r = m.sleep(vec![tok("10")], DEFAULT_FUEL);
    assert_eq!(text(&r), "nil");
    assert!(m.errors.is_empty());
}

#[test]
fn pubv_toggles_export() {
    let mut m = Machine::new(Vec::new());
    m.let_(vec![tok("x"), tok("5")], DEFAULT_FUEL);
    assert!(!m.variables[0].public);
    m.pubv(vec![tok("x")], DEFAULT_FUEL);
    assert!(m.variables[0].public);
    m.pubv(vec![tok("x")], DEFAULT_FUEL);
    assert!(!m.variables[0].public);
    let r = m.pubv(vec![tok("y")], DEFAULT_FUEL);
    assert_eq!(text(&r), "");
    assert_eq!(m.errors, vec![ErrorKind::MissingVariable]);
}

#[test]
fn import_merges_public_entries() {
    let mut parser = Parser::new("import(lib) print(get(lib/v)) print(call(lib/f 3))");
    parser.parse();
    assert!(parser.error.is_none());
    let mut m = Machine::new(parser.output);
    m.load_module(
        "lib".to_string(),
        "let(v \"7\") pubv(v) let(hidden \"x\") function(f (\"a\") +(get(a) 1)) pubf(f)"
            .to_string(),
    );
    m.process_whole();
    assert!(!m.halted, "errors: {:?}", m.errors);
    assert_eq!(m.output, vec!["7", "4"]);
    // the private variable did not cross the boundary
    assert!(m.variables.iter().all(|v| v.key != "lib/hidden" && v.key != "hidden"));
}

#[test]
fn import_of_missing_module_is_fatal() {
    let m = {
        let mut parser = Parser::new("import(nowhere)");
        parser.parse();
        let mut m = Machine::new(parser.output);
        m.process_whole();
        m
    };
    assert!(m.halted);
    assert_eq!(m.errors, vec![ErrorKind::MissingModule]);
}

#[test]
fn import_of_bad_module_is_fatal() {
    let mut parser = Parser::new("import(bad)");
    parser.parse();
    let mut m = Machine::new(parser.output);
    m.load_module("bad".to_string(), "print(x))".to_string());
    m.process_whole();
    assert!(m.halted);
    assert_eq!(m.errors, vec![ErrorKind::Syntax]);
}

#[test]
fn token_to_string_of_marker_reports() {
    let mut m = Machine::new(Vec::new());
    let r = m.token_to_string(Token::PlaceHolder(0xF));
    assert_eq!(r, "");
    assert_eq!(m.errors, vec![ErrorKind::BadObject]);
}

#[test]
fn let_replaces_existing_variable() {
    let mut m = Machine::new(Vec::new());
    m.let_(vec![tok("x"), tok("1")], DEFAULT_FUEL);
    m.let_(vec![tok("x"), tok("2")], DEFAULT_FUEL);
    assert_eq!(m.variables.len(), 1);
    assert_eq!(text(&m.get(vec![tok("x")], DEFAULT_FUEL)), "2");
}

#[test]
fn nested_argument_evaluation() {
    let m = run("let(x \"4\") print(+(get(x) 1))");
    assert_eq!(m.output, vec!["5"]);
}

#[test]
fn for_with_no_rounds_yields_nil() {
    let mut m = Machine::new(Vec::new());
    let r = m.for_(vec![tok("0"), tok("i"), tok("body")], DEFAULT_FUEL);
    assert_eq!(text(&r), "nil");
    let r2 = m.for_(vec![tok("-3"), tok("i"), tok("body")], DEFAULT_FUEL);
    assert_eq!(text(&r2), "nil");
}

#[test]
fn for_with_falsy_name_skips_binding() {
    let m = run("for(2 0 print(tick))");
    assert_eq!(m.output, vec!["tick", "tick"]);
    assert!(m.variables.is_empty());
}

#[test]
fn while_with_false_condition_yields_nil() {
    let mut m = Machine::new(Vec::new());
    let r = m.while_(vec![tok("0"), tok("body")], DEFAULT_FUEL);
    assert_eq!(text(&r), "nil");
    assert!(!m.halted);
}

#[test]
fn pubf_toggles_export() {
    let mut m = Machine::new(Vec::new());
    let r = m.pubf(vec![tok("nope")], DEFAULT_FUEL);
    assert_eq!(text(&r), "nil");
    assert_eq!(m.errors, vec![ErrorKind::MissingFunction]);
}

#[test]
fn pubd_toggles_export() {
    let mut m = Machine::new(Vec::new());
    m.dylib(vec![tok("lib"), tok("a.so")], DEFAULT_FUEL);
    assert!(!m.dynamic_libs[0].public);
    m.pubd(vec![tok("lib")], DEFAULT_FUEL);
    assert!(m.dynamic_libs[0].public);
    let r = m.pubd(vec![tok("other")], DEFAULT_FUEL);
    assert_eq!(text(&r), "nil");
    assert_eq!(m.errors, vec![ErrorKind::MissingLibrary]);
}

#[test]
fn import_prefixes_public_library() {
    let mut parser = Parser::new("import(libs)");
    parser.parse();
    let mut m = Machine::new(parser.output);
    m.load_module("libs".to_string(), "dylib(n some.so) pubd(n)".to_string());
    m.process_whole();
    assert!(!m.halted);
    assert_eq!(m.dynamic_libs.len(), 1);
    assert_eq!(m.dynamic_libs[0].key, "libs/n");
    assert_eq!(m.dynamic_libs[0].path, "some.so");
}

#[test]
fn if_evaluates_only_the_taken_branch() {
    // the untaken branch would print; it must not run
    let m = run("if(1 print(yes) print(no))");
    assert_eq!(m.output, vec!["yes"]);
}

#[test]
fn upgrade_of_missing_variable_reports() {
    let mut m = Machine::new(Vec::new());
    let r = m.upgrade(vec![tok("ghostly")], DEFAULT_FUEL);
    assert_eq!(text(&r), "");
    assert_eq!(m.errors, vec![ErrorKind::MissingVariable]);
}

#[test]
fn variable_name_may_come_from_a_command() {
    // the name position is itself evaluated
    let m = run("let(x \"5\") print(get((x)))");
    assert_eq!(m.output, vec!["5"]);
}
