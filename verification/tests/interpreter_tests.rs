use shock::arith::Doubles;
use shock::arith::Operator;
use shock::interpreter::eval;
use shock::interpreter::eval_without_dereferencing;
use shock::interpreter::Value;
use shock::interpreter::VM;
use shock::model::PrimitiveData;
use shock::parser::parse;
use shock::parser::ExpressionValue;

struct Ieee;

impl Doubles for Ieee {
    fn from_int(&self, value: i64) -> u64 {
        (value as f64).to_bits()
    }

    fn apply(&self, operator: Operator, left: u64, right: u64) -> u64 {
        let a = f64::from_bits(left);
        let b = f64::from_bits(right);
        let result = match operator {
            Operator::Add => a + b,
            Operator::Sub => a - b,
            Operator::Mult => a * b,
            Operator::Div => a / b,
            Operator::Modulo => a % b,
        };
        result.to_bits()
    }

    fn whole(&self, bits: u64) -> Option<i64> {
        let value = f64::from_bits(bits);
        if value.is_finite() && math::round::ceil(value, 0) == math::round::floor(value, 0) {
            Some(value as i64)
        } else {
            None
        }
    }
}

fn machine() -> VM<Ieee> {
    let mut vm = VM::new(Ieee);
    vm.define_standard_functions();
    vm
}

fn run(vm: &mut VM<Ieee>, text: &str) -> Value {
    let parsed = parse(text).unwrap().1;
    assert_eq!(1, parsed.len());
    eval(vm, &parsed[0])
}

fn integer(value: i64) -> Value {
    Value::Primitive(PrimitiveData::Int(value))
}

fn double(value: f64) -> Value {
    Value::Primitive(PrimitiveData::Float(value.to_bits()))
}

#[test]
fn sum_of_two_integers_is_an_integer() {
    let mut vm = machine();
    assert_eq!(integer(5), run(&mut vm, "(+ 2 3);"));
    assert_eq!(integer(-4), run(&mut vm, "(+ -7 3);"));
    assert_eq!(integer(0), run(&mut vm, "(+ 5 -5);"));
    assert_eq!(integer(9007199254740992), run(&mut vm, "(+ 9007199254740991 1);"));
}

#[test]
fn sum_with_a_double_is_a_double_unless_whole() {
    let mut vm = machine();
    vm.set_value("half", &double(0.5));
    vm.set_value("x", &double(2.5));
    assert_eq!(double(3.5), run(&mut vm, "(+ 1 x);"));
    assert_eq!(integer(3), run(&mut vm, "(+ half x);"));
    assert_eq!(integer(4), run(&mut vm, "(+ 1 half x);"));
}

#[test]
fn integers_beyond_the_exact_range_round_as_doubles_do() {
    let mut vm = machine();
    assert_eq!(integer(9007199254740992), run(&mut vm, "(+ 9007199254740993 0);"));
    assert_eq!(integer(9007199254740994), run(&mut vm, "(+ 9007199254740992 2);"));
    assert_eq!(integer(9007199254740992), run(&mut vm, "(+ 9007199254740992 1);"));
}

#[test]
fn let_then_get() {
    let mut vm = machine();
    assert_eq!(integer(5), run(&mut vm, "(let x 5);"));
    assert_eq!(integer(5), run(&mut vm, "(get x);"));
    assert_eq!(Value::Unit, run(&mut vm, "(get y);"));
}

#[test]
fn let_binds_again() {
    let mut vm = machine();
    run(&mut vm, "(let x 5);");
    run(&mut vm, "(let x 6);");
    assert_eq!(integer(6), run(&mut vm, "(get x);"));
    assert_eq!(9, vm.current_bindings().len());
}

#[test]
fn let_with_a_label_binds_the_label() {
    let mut vm = machine();
    assert_eq!(integer(5), run(&mut vm, "(let x: 0 5);"));
    assert_eq!(integer(5), run(&mut vm, "(get x);"));
}

#[test]
fn let_with_one_argument_binds_nothing() {
    let mut vm = machine();
    assert_eq!(Value::Unit, run(&mut vm, "(let x);"));
    assert_eq!(Value::Unit, run(&mut vm, "(get x);"));
    assert_eq!(8, vm.current_bindings().len());
}

#[test]
fn get_with_two_arguments_is_unit() {
    let mut vm = machine();
    run(&mut vm, "(let x 5);");
    assert_eq!(Value::Unit, run(&mut vm, "(get x x);"));
    assert_eq!(Value::Unit, run(&mut vm, "(get );"));
}

#[test]
fn show_is_unit_and_changes_nothing() {
    let mut vm = machine();
    run(&mut vm, "(let x 5);");
    assert_eq!(Value::Unit, run(&mut vm, "(show );"));
    assert_eq!(9, vm.current_bindings().len());
    assert_eq!(integer(5), run(&mut vm, "(get x);"));
}

#[test]
fn block_binding_is_gone_behind_the_block() {
    let mut vm = machine();
    assert_eq!(integer(1), run(&mut vm, "{ (let x 1) };"));
    assert_eq!(Value::Unit, run(&mut vm, "(get x);"));
    assert_eq!(0, vm.get_current_scope());
    assert_eq!(None, vm.get_parent_scope());
}

#[test]
fn block_sees_the_scope_around_it() {
    let mut vm = machine();
    run(&mut vm, "(let x 4);");
    assert_eq!(integer(4), run(&mut vm, "{ (let y 1); (get x) };"));
    assert_eq!(Value::Unit, run(&mut vm, "{ };"));
    assert_eq!(Value::Unit, run(&mut vm, "{};"));
}

#[test]
fn closure_outlives_the_block_that_made_it() {
    let mut vm = machine();
    run(&mut vm, "(let outer 7);");
    let made = run(&mut vm, "(let g {(let f []{ (get outer) })});");
    assert!(matches!(made, Value::Procedure(_)));
    assert_eq!(integer(7), run(&mut vm, "(g);"));
    assert_eq!(Value::Unit, run(&mut vm, "(get f);"));
    let path = ExpressionValue::Path(vec!["g".to_owned(), "f".to_owned()]);
    match eval(&mut vm, &path) {
        Value::Procedure(closure) => {
            assert_eq!(1, closure.scope);
            assert_eq!(1, closure.body.len());
        }
        other => panic!("the path led to {:?}", other),
    }
}

#[test]
fn arguments_are_bound_under_their_labels() {
    let mut vm = machine();
    run(&mut vm, "(let f [a: Int]{ (get a) });");
    assert_eq!(integer(7), run(&mut vm, "(f a: 7);"));
    assert_eq!(Value::Unit, run(&mut vm, "(f b: 7);"));
    assert_eq!(Value::Unit, run(&mut vm, "(f 7);"));
    assert_eq!(Value::Unit, run(&mut vm, "(get a);"));
}

#[test]
fn closure_arguments_are_dereferenced() {
    let mut vm = machine();
    run(&mut vm, "(let x 3);");
    run(&mut vm, "(let f []{ (+ a 1) });");
    assert_eq!(integer(4), run(&mut vm, "(f a: x);"));
}

#[test]
fn arithmetic_edges() {
    let mut vm = machine();
    assert_eq!(integer(0), run(&mut vm, "(+ );"));
    assert_eq!(integer(0), run(&mut vm, "(/ );"));
    assert_eq!(double(3.5), run(&mut vm, "(/ 7 2);"));
    assert_eq!(integer(1), run(&mut vm, "(% 9 4);"));
    assert_eq!(integer(-1), run(&mut vm, "(% -9 4);"));
    assert_eq!(integer(1), run(&mut vm, "(% 9 -4);"));
    assert_eq!(integer(2), run(&mut vm, "(/ 6 3);"));
    assert_eq!(integer(-2), run(&mut vm, "(/ 6 -3);"));
    assert_eq!(integer(12), run(&mut vm, "(* 3 4);"));
    assert_eq!(integer(0), run(&mut vm, "(- 1 1);"));
    assert_eq!(integer(-4), run(&mut vm, "(- 1 2 3);"));
    assert_eq!(integer(5), run(&mut vm, "(+ 5);"));
    assert_eq!(double(f64::INFINITY), run(&mut vm, "(/ 1 0);"));
}

#[test]
fn division_by_zero_of_zero_is_not_a_number() {
    let mut vm = machine();
    match run(&mut vm, "(% 1 0);") {
        Value::Primitive(PrimitiveData::Float(bits)) => assert!(f64::from_bits(bits).is_nan()),
        other => panic!("the remainder was {:?}", other),
    }
}

#[test]
fn product_beyond_the_exact_range_is_what_doubles_make_of_it() {
    let mut vm = machine();
    assert_eq!(
        integer((9007199254740992f64 * 4f64) as i64),
        run(&mut vm, "(* 9007199254740992 4);")
    );
    assert_eq!(integer(i64::MAX), run(&mut vm, "(* 9007199254740992 9007199254740992);"));
}

#[test]
fn what_is_no_number_counts_zero() {
    let mut vm = machine();
    assert_eq!(integer(1), run(&mut vm, "(+ 1 \"text\");"));
    assert_eq!(integer(1), run(&mut vm, "(+ 1 nowhere);"));
    assert_eq!(integer(2), run(&mut vm, "(+ 1 true);"));
    assert_eq!(integer(1), run(&mut vm, "(+ 1 false);"));
    assert_eq!(integer(1), run(&mut vm, "(+ 1 []{});"));
    vm.set_value("b", &Value::Primitive(PrimitiveData::Byte(200)));
    assert_eq!(integer(201), run(&mut vm, "(+ 1 b);"));
    vm.set_value("p", &Value::Path(vec!["nowhere".to_owned()]));
    assert_eq!(integer(1), run(&mut vm, "(+ 1 p);"));
}

#[test]
fn names_are_followed_to_a_number() {
    let mut vm = machine();
    run(&mut vm, "(let x 5);");
    run(&mut vm, "(let y x);");
    assert_eq!(Value::Primitive(PrimitiveData::Name("x".to_owned())), run(&mut vm, "(get y);"));
    assert_eq!(integer(6), run(&mut vm, "(+ y 1);"));
}

#[test]
fn a_name_bound_to_itself_counts_zero() {
    let mut vm = machine();
    run(&mut vm, "(let x x);");
    assert_eq!(integer(1), run(&mut vm, "(+ x 1);"));
}

#[test]
fn endless_recursion_ends_in_unit() {
    let mut vm = machine();
    run(&mut vm, "(let f []{ (f) });");
    assert_eq!(Value::Unit, run(&mut vm, "(f);"));
    assert_eq!(0, vm.get_current_scope());
}

#[test]
fn unknown_command_is_unit() {
    let mut vm = machine();
    assert_eq!(Value::Unit, run(&mut vm, "(nothing 1 2);"));
}

#[test]
fn applying_what_is_no_procedure_is_unit() {
    let mut vm = machine();
    run(&mut vm, "(let x 5);");
    assert_eq!(Value::Unit, run(&mut vm, "(x 1);"));
}

#[test]
fn literals_evaluate_to_themselves() {
    let mut vm = machine();
    assert_eq!(integer(5), run(&mut vm, "5;"));
    assert_eq!(Value::Primitive(PrimitiveData::Bool(true)), run(&mut vm, "(let t true);"));
    assert_eq!(Value::Unit, run(&mut vm, "true;"));
    assert_eq!(
        Value::Primitive(PrimitiveData::String("a\nb".to_owned())),
        run(&mut vm, "\"a\\nb\";")
    );
    assert_eq!(Value::Unit, eval(&mut vm, &ExpressionValue::Unit));
}

#[test]
fn names_and_paths_stay_raw_without_dereferencing() {
    let mut vm = machine();
    run(&mut vm, "(let x 5);");
    let name = ExpressionValue::Primitive(PrimitiveData::Name("x".to_owned()));
    assert_eq!(integer(5), eval(&mut vm, &name));
    assert_eq!(
        Value::Primitive(PrimitiveData::Name("x".to_owned())),
        eval_without_dereferencing(&mut vm, &name)
    );
    let path = ExpressionValue::Path(vec!["x".to_owned()]);
    assert_eq!(Value::Unit, eval(&mut vm, &path));
    assert_eq!(Value::Path(vec!["x".to_owned()]), eval_without_dereferencing(&mut vm, &path));
}

#[test]
fn procedure_literal_makes_a_closure_of_the_current_scope() {
    let mut vm = machine();
    match run(&mut vm, "[a: Int b]{ (get a) };") {
        Value::Procedure(closure) => {
            assert_eq!(vec!["a".to_owned(), "".to_owned()], closure.argnames);
            assert_eq!(1, closure.body.len());
            assert_eq!(0, closure.scope);
        }
        other => panic!("the literal made {:?}", other),
    }
}

#[test]
fn path_with_an_empty_segment_moves_to_the_parent() {
    let mut vm = machine();
    run(&mut vm, "(let f []{ });");
    vm.push_scope();
    assert_eq!(Some(0), vm.get_parent_scope());
    assert_eq!(None, vm.lookup_path(&vec!["f".to_owned()]));
    assert!(matches!(
        vm.lookup_path(&vec!["".to_owned(), "f".to_owned()]),
        Some(Value::Procedure(_))
    ));
    assert_eq!(None, vm.lookup_path(&vec![]));
    vm.pop_scope();
    assert_eq!(None, vm.lookup_path(&vec!["".to_owned(), "f".to_owned()]));
}

#[test]
fn scopes_are_looked_up_outward() {
    let mut vm = machine();
    vm.set_value("x", &integer(1));
    vm.push_scope();
    vm.set_value("y", &integer(2));
    assert_eq!(Some(integer(1)), vm.lookup_value("x"));
    assert_eq!(None, vm.lookup_direct_value("x"));
    assert_eq!(Some(integer(2)), vm.lookup_direct_value("y"));
    vm.set_value("x", &integer(3));
    assert_eq!(Some(integer(3)), vm.lookup_value("x"));
    vm.pop_scope();
    assert_eq!(Some(integer(1)), vm.lookup_value("x"));
    assert_eq!(None, vm.lookup_value("y"));
}
