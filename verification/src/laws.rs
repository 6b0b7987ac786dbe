//! What holds of evaluation, whatever the machine and the expression.

use vstd::prelude::*;
use crate::arith::combine_exact;
use crate::arith::fold_exact;
use crate::arith::is_exact;
use crate::arith::Operator;
use crate::model::PrimitiveView;
use crate::parser::CommandView;
use crate::parser::ExpressionView;
use crate::semantics::arguments_model;
use crate::semantics::ArgumentsView;
use crate::semantics::body_model;
use crate::semantics::Builtin;
use crate::semantics::command_model;
use crate::semantics::eval_model;
use crate::semantics::first_argname;
use crate::semantics::get_model;
use crate::semantics::lemma_bind_all_extends;
use crate::semantics::lemma_bind_extends;
use crate::semantics::lemma_extended_transitive;
use crate::semantics::lemma_kept_lookup_from;
use crate::semantics::lemma_lookup_from_alike;
use crate::semantics::lemma_pushed_wf;
use crate::semantics::lemma_scope_left;
use crate::semantics::let_model;
use crate::semantics::native_model;
use crate::semantics::operands_model;
use crate::semantics::ProcedureView;
use crate::semantics::standard_model;
use crate::semantics::ValueView;
use crate::semantics::VmView;

verus! {

/// An integer literal as an argument without a label.
pub open spec fn integer_argument(value: i64) -> (Seq<char>, ExpressionView) {
    (Seq::empty(), ExpressionView::Primitive(PrimitiveView::Int(value)))
}

/// The command that applies `name` to two integer literals.
pub open spec fn binary_command(name: Seq<char>, a: i64, b: i64) -> ExpressionView {
    ExpressionView::Expression(
        CommandView { name, args: seq![integer_argument(a), integer_argument(b)] },
    )
}

/// Where `+` is bound to the built-in addition, the sum of two integers is
/// the integer that is their sum, as long as the numbers and the sum are
/// whole numbers that a double holds exactly; and the machine is as it was.
pub proof fn law_sum_of_integers(vm: VmView, a: i64, b: i64, dereference: bool, fuel: nat)
    requires
        vm.lookup("+"@) == Some(ValueView::NativeProcedure(Builtin::Add)),
        is_exact(a as int),
        is_exact(b as int),
        is_exact(a + b),
    ensures
        eval_model(vm, binary_command("+"@, a, b), dereference, fuel) == Some(
            (vm, ValueView::Primitive(PrimitiveView::Int((a + b) as i64))),
        ),
{
    let args = seq![integer_argument(a), integer_argument(b)];
    let first = (Seq::<char>::empty(), ValueView::Primitive(PrimitiveView::Int(a)));
    let second = (Seq::<char>::empty(), ValueView::Primitive(PrimitiveView::Int(b)));
    assert(args.drop_last() =~= seq![integer_argument(a)]);
    assert(args.drop_last().drop_last() =~= Seq::empty());
    assert(arguments_model(vm, args.drop_last().drop_last(), false, fuel) == Some(
        (vm, Seq::<(Seq<char>, ValueView)>::empty()),
    ));
    assert(args.drop_last().last() == integer_argument(a));
    assert(args.last() == integer_argument(b));
    assert(eval_model(vm, integer_argument(a).1, false, fuel) == Some((vm, first.1)));
    assert(eval_model(vm, integer_argument(b).1, false, fuel) == Some((vm, second.1)));
    assert(arguments_model(vm, args.drop_last(), false, fuel) == Some(
        (vm, Seq::<(Seq<char>, ValueView)>::empty().push(first)),
    ));
    let values = Seq::<(Seq<char>, ValueView)>::empty().push(first).push(second);
    assert(arguments_model(vm, args, false, fuel) == Some((vm, values)));
    let operands = operands_model(vm, values, fuel);
    assert(operands =~= seq![Some(a as int), Some(b as int)]);
    assert(operands.drop_last() =~= seq![Some(a as int)]);
    assert(fold_exact(Operator::Add, operands.drop_last()) == Some(a as int));
    assert(fold_exact(Operator::Add, operands) == combine_exact(Operator::Add, a as int, b as int));
}

/// Once the names of the built-in procedures are bound, each of them is
/// found, and leads to its procedure.
pub proof fn law_standard_names(vm: VmView)
    requires
        vm.wf(),
    ensures
        standard_model(vm).wf(),
        vm.extended_by(standard_model(vm)),
        standard_model(vm).lookup("let"@) == Some(ValueView::NativeProcedure(Builtin::Let)),
        standard_model(vm).lookup("show"@) == Some(ValueView::NativeProcedure(Builtin::Show)),
        standard_model(vm).lookup("get"@) == Some(ValueView::NativeProcedure(Builtin::Get)),
        standard_model(vm).lookup("+"@) == Some(ValueView::NativeProcedure(Builtin::Add)),
        standard_model(vm).lookup("-"@) == Some(ValueView::NativeProcedure(Builtin::Sub)),
        standard_model(vm).lookup("*"@) == Some(ValueView::NativeProcedure(Builtin::Mult)),
        standard_model(vm).lookup("/"@) == Some(ValueView::NativeProcedure(Builtin::Div)),
        standard_model(vm).lookup("%"@) == Some(ValueView::NativeProcedure(Builtin::Modulo)),
{
    reveal_strlit("let");
    reveal_strlit("show");
    reveal_strlit("get");
    reveal_strlit("+");
    reveal_strlit("-");
    reveal_strlit("*");
    reveal_strlit("/");
    reveal_strlit("%");
    let after = standard_model(vm);
    let vars = vm.scopes[vm.current as int].vars;
    assert("let"@[0] == 'l' && "show"@[0] == 's' && "get"@[0] == 'g' && "+"@[0] == '+' && "-"@[0]
        == '-' && "*"@[0] == '*' && "/"@[0] == '/' && "%"@[0] == '%');
    assert(after.current == vm.current);
    assert(after.scopes.len() == vm.scopes.len());
    assert(after.scopes[vm.current as int].vars == vars.insert(
        "let"@,
        ValueView::NativeProcedure(Builtin::Let),
    ).insert("show"@, ValueView::NativeProcedure(Builtin::Show)).insert(
        "get"@,
        ValueView::NativeProcedure(Builtin::Get),
    ).insert("+"@, ValueView::NativeProcedure(Builtin::Add)).insert(
        "-"@,
        ValueView::NativeProcedure(Builtin::Sub),
    ).insert("*"@, ValueView::NativeProcedure(Builtin::Mult)).insert(
        "/"@,
        ValueView::NativeProcedure(Builtin::Div),
    ).insert("%"@, ValueView::NativeProcedure(Builtin::Modulo)));
    assert forall|i: int| 0 <= i < vm.scopes.len() implies {
        &&& (#[trigger] after.scopes[i]).parent == vm.scopes[i].parent
        &&& after.scopes[i].child == vm.scopes[i].child
        &&& i != vm.current ==> after.scopes[i].vars == vm.scopes[i].vars
    } by {}
}

/// What `let` has bound, `get` returns: where the one argument of `get`
/// gives the name that the first argument of `let` gave, its result is the
/// value of the second argument of `let`.
pub proof fn law_get_after_let(vm: VmView, bound: ArgumentsView, asked: ArgumentsView)
    requires
        vm.wf(),
        bound.len() >= 2,
        asked.len() == 1,
        first_argname(asked, 0) == first_argname(bound, 0),
    ensures
        get_model(let_model(vm, bound).0, asked) == bound[1].1,
        let_model(vm, bound).1 == bound[1].1,
{
}

/// A name that is not bound gets unit.
pub proof fn law_get_of_unbound(vm: VmView, asked: ArgumentsView)
    requires
        asked.len() == 1,
        vm.lookup(first_argname(asked, 0)) is None,
    ensures
        get_model(vm, asked) == ValueView::Unit,
{
}

/// A built-in procedure leaves the machine well formed, with the same
/// current scope and every other scope as it was.
pub proof fn law_native_frame(vm: VmView, builtin: Builtin, arguments: ArgumentsView, fuel: nat)
    requires
        vm.wf(),
    ensures
        native_model(vm, builtin, arguments, fuel) matches Some((after, _)) ==> after.wf()
            && vm.extended_by(after),
{
    if arguments.len() >= 2 {
        lemma_bind_extends(vm, first_argname(arguments, 0), arguments[1].1);
    }
}

/// Evaluation leaves the machine well formed, with the same current scope
/// and every other scope as it was. Only a command can change what the
/// current scope binds.
pub proof fn law_evaluation_frame(
    vm: VmView,
    expression: ExpressionView,
    dereference: bool,
    fuel: nat,
)
    requires
        vm.wf(),
    ensures
        eval_model(vm, expression, dereference, fuel) matches Some((after, _)) ==> {
            &&& after.wf()
            &&& vm.extended_by(after)
            &&& !(expression is Expression) ==> vm.kept_by(after)
        },
    decreases fuel, expression,
{
    match expression {
        ExpressionView::Expression(command) => {
            law_command_frame(vm, command, fuel);
        },
        ExpressionView::Block(commands) => {
            lemma_pushed_wf(vm);
            law_body_frame(vm.pushed(), commands, fuel);
            if let Some((after, _)) = body_model(vm.pushed(), commands, fuel) {
                lemma_scope_left(vm, after);
            }
        },
        _ => {},
    }
}

/// A command leaves the machine well formed, with the same current scope
/// and every other scope as it was.
pub proof fn law_command_frame(vm: VmView, command: CommandView, fuel: nat)
    requires
        vm.wf(),
    ensures
        command_model(vm, command, fuel) matches Some((after, _)) ==> after.wf()
            && vm.extended_by(after),
    decreases fuel, command,
{
    match vm.lookup(command.name) {
        Some(ValueView::NativeProcedure(builtin)) => {
            law_arguments_frame(vm, command.args, false, fuel);
            if let Some((after, values)) = arguments_model(vm, command.args, false, fuel) {
                law_native_frame(after, builtin, values, fuel);
                if let Some((last, _)) = native_model(after, builtin, values, fuel) {
                    lemma_extended_transitive(vm, after, last);
                }
            }
        },
        Some(ValueView::Procedure(closure)) => {
            if fuel > 0 {
                lemma_pushed_wf(vm);
                let entered = vm.pushed();
                law_arguments_frame(entered, command.args, true, fuel);
                if let Some((after, values)) = arguments_model(entered, command.args, true, fuel) {
                    lemma_bind_all_extends(after, values);
                    let bound = after.bind_all(values);
                    law_body_frame(bound, closure.body, (fuel - 1) as nat);
                    if let Some((last, _)) = body_model(bound, closure.body, (fuel - 1) as nat) {
                        lemma_extended_transitive(entered, after, bound);
                        lemma_extended_transitive(entered, bound, last);
                        lemma_scope_left(vm, last);
                    }
                }
            }
        },
        _ => {},
    }
}

/// The evaluation of arguments leaves the machine well formed, with the
/// same current scope and every other scope as it was.
pub proof fn law_arguments_frame(
    vm: VmView,
    arguments: Seq<(Seq<char>, ExpressionView)>,
    dereference: bool,
    fuel: nat,
)
    requires
        vm.wf(),
    ensures
        arguments_model(vm, arguments, dereference, fuel) matches Some((after, values))
            ==> after.wf() && vm.extended_by(after) && values.len() == arguments.len(),
    decreases fuel, arguments,
{
    if arguments.len() > 0 {
        law_arguments_frame(vm, arguments.drop_last(), dereference, fuel);
        if let Some((before, _)) = arguments_model(vm, arguments.drop_last(), dereference, fuel) {
            law_evaluation_frame(before, arguments.last().1, dereference, fuel);
            if let Some((after, _)) = eval_model(before, arguments.last().1, dereference, fuel) {
                lemma_extended_transitive(vm, before, after);
            }
        }
    }
}

/// The commands of a body leave the machine well formed, with the same
/// current scope and every other scope as it was.
pub proof fn law_body_frame(vm: VmView, commands: Seq<CommandView>, fuel: nat)
    requires
        vm.wf(),
    ensures
        body_model(vm, commands, fuel) matches Some((after, _)) ==> after.wf() && vm.extended_by(
            after,
        ),
    decreases fuel, commands,
{
    if commands.len() > 0 {
        law_body_frame(vm, commands.drop_last(), fuel);
        if let Some((before, _)) = body_model(vm, commands.drop_last(), fuel) {
            law_command_frame(before, commands.last(), fuel);
            if let Some((after, _)) = command_model(before, commands.last(), fuel) {
                lemma_extended_transitive(vm, before, after);
            }
        }
    }
}

/// What a block binds is gone behind it: every name is bound to what it was
/// bound to before the block, and every scope that was there is as it was.
pub proof fn law_block_hides_bindings(
    vm: VmView,
    commands: Seq<CommandView>,
    dereference: bool,
    fuel: nat,
    name: Seq<char>,
)
    requires
        vm.wf(),
    ensures
        eval_model(vm, ExpressionView::Block(commands), dereference, fuel) matches Some(
            (after, _),
        ) ==> vm.kept_by(after) && after.lookup(name) == vm.lookup(name),
{
    law_evaluation_frame(vm, ExpressionView::Block(commands), dereference, fuel);
    if let Some((after, _)) = eval_model(vm, ExpressionView::Block(commands), dereference, fuel) {
        lemma_kept_lookup_from(vm, after, vm.current, name);
    }
}

/// The arguments of a call are bound under the labels that the call gives
/// them: behind the binding, the label of the last argument leads to its
/// value.
pub proof fn law_labels_bind_arguments(vm: VmView, arguments: ArgumentsView)
    requires
        vm.wf(),
        arguments.len() > 0,
    ensures
        vm.bind_all(arguments).lookup(arguments.last().0) == Some(arguments.last().1),
{
    lemma_bind_all_extends(vm, arguments.drop_last());
}

/// A call of a closure is decided by the arguments of the call, with their
/// labels, and by the body of the closure; the parameter names of the
/// closure take no part in it.
pub proof fn law_parameter_names_do_not_bind(
    vm: VmView,
    command: CommandView,
    fuel: nat,
    argnames: Seq<Seq<char>>,
    body: Seq<CommandView>,
    scope: nat,
)
    requires
        fuel > 0,
        vm.lookup(command.name) == Some(
            ValueView::Procedure(ProcedureView { argnames, body, scope }),
        ),
    ensures
        command_model(vm, command, fuel) == match arguments_model(
            vm.pushed(),
            command.args,
            true,
            fuel,
        ) {
            Some((after, values)) => match body_model(
                after.bind_all(values),
                body,
                (fuel - 1) as nat,
            ) {
                Some((last, value)) => Some((last.popped(), value)),
                None => None,
            },
            None => None,
        },
{
}

/// A scope outlives the block or the call that made it: what it bound when
/// it was left, it binds after whatever is evaluated later, for the closures
/// that were made in it.
pub proof fn law_scope_outlives_its_frame(vm: VmView, inside: VmView, later: VmView)
    requires
        vm.wf(),
        inside.wf(),
        vm.pushed().extended_by(inside),
        inside.popped().extended_by(later),
    ensures
        vm.scopes.len() < later.scopes.len(),
        later.scopes[vm.scopes.len() as int].vars == inside.scopes[vm.scopes.len() as int].vars,
        later.scopes[vm.scopes.len() as int].parent == Some(vm.current),
{
    lemma_pushed_wf(vm);
    lemma_scope_left(vm, inside);
    let made = vm.scopes.len() as int;
    assert(inside.popped().scopes[made] == inside.scopes[made]);
    assert(inside.scopes[made].parent == vm.pushed().scopes[made].parent);
}

/// A scope that was just entered binds nothing of its own, and sees what
/// its parent sees.
pub proof fn law_new_scope_sees_outward(vm: VmView, name: Seq<char>)
    requires
        vm.wf(),
    ensures
        vm.pushed().lookup(name) == vm.lookup(name),
{
    let entered = vm.pushed();
    assert(entered.scopes[entered.current as int].vars =~= Map::<Seq<char>, ValueView>::empty());
    assert forall|i: int| 0 <= i <= vm.current implies (#[trigger] entered.scopes[i]).vars
        == vm.scopes[i].vars && entered.scopes[i].parent == vm.scopes[i].parent by {}
    lemma_lookup_from_alike(vm, entered, vm.current, name);
}

/// What is bound in the current scope is found under its name, and every
/// other name is bound as before.
pub proof fn law_lookup_after_bind(vm: VmView, name: Seq<char>, value: ValueView, other: Seq<char>)
    requires
        vm.wf(),
        other != name,
    ensures
        vm.bind(name, value).lookup(name) == Some(value),
        vm.bind(name, value).lookup(other) == vm.lookup(other),
{
    let after = vm.bind(name, value);
    if !vm.scopes[vm.current as int].vars.contains_key(other) {
        if let Some(p) = vm.scopes[vm.current as int].parent {
            assert forall|i: int| 0 <= i <= p implies (#[trigger] after.scopes[i]).vars
                == vm.scopes[i].vars && after.scopes[i].parent == vm.scopes[i].parent by {}
            lemma_lookup_from_alike(vm, after, p, other);
        }
    }
}

} // verus!
