//! What evaluation means: values, scopes and the machine as mathematical
//! data, and the result of evaluating an expression as a function of them.

use vstd::prelude::*;
use crate::arith::fold_exact;
use crate::arith::is_exact;
use crate::arith::Operator;
use crate::model::PrimitiveView;
use crate::parser::CommandView;
use crate::parser::ExpressionView;

verus! {

/// The built-in procedures.
#[derive(Debug, Clone, Copy, PartialEq, Eq)]
pub enum Builtin {
    Let,
    Show,
    Get,
    Add,
    Sub,
    Mult,
    Div,
    Modulo,
}

/// What a closure is: its parameter names, its body and the scope in which
/// it was made.
pub struct ProcedureView {
    pub argnames: Seq<Seq<char>>,
    pub body: Seq<CommandView>,
    pub scope: nat,
}

/// What a value is.
pub enum ValueView {
    Unit,
    Primitive(PrimitiveView),
    Procedure(ProcedureView),
    NativeProcedure(Builtin),
    Path(Seq<Seq<char>>),
}

/// What a scope is: its bindings, and the places of its parent and of its
/// active child among the scopes of the machine.
pub struct ScopeView {
    pub vars: Map<Seq<char>, ValueView>,
    pub parent: Option<nat>,
    pub child: Option<nat>,
}

/// What the machine is: every scope that was ever made, in the order of
/// their making, and the place of the current one.
pub struct VmView {
    pub scopes: Seq<ScopeView>,
    pub current: nat,
}

/// The arguments of a call, evaluated.
pub type ArgumentsView = Seq<(Seq<char>, ValueView)>;

/// Each scope but the first was made after its parent.
pub open spec fn linked(scopes: Seq<ScopeView>) -> bool {
    forall|i: int|
        0 <= i < scopes.len() ==> (#[trigger] scopes[i].parent matches Some(p) ==> p < i)
}

impl VmView {
    /// The current scope exists and has no active child, and each scope but
    /// the first was made after its parent.
    pub open spec fn wf(self) -> bool {
        &&& self.current < self.scopes.len()
        &&& self.scopes[self.current as int].child is None
        &&& linked(self.scopes)
    }

    /// The value that `name` is bound to in the scope at `at` or, where that
    /// scope does not bind it, in the nearest of its ancestors that does.
    pub open spec fn lookup_from(self, at: nat, name: Seq<char>) -> Option<ValueView>
        decreases at,
    {
        if at >= self.scopes.len() {
            None
        } else if self.scopes[at as int].vars.contains_key(name) {
            Some(self.scopes[at as int].vars[name])
        } else {
            match self.scopes[at as int].parent {
                Some(p) if p < at => self.lookup_from(p, name),
                _ => None,
            }
        }
    }

    /// The value that `name` is bound to, as seen from the current scope.
    pub open spec fn lookup(self, name: Seq<char>) -> Option<ValueView> {
        self.lookup_from(self.current, name)
    }

    /// The value that `name` is bound to in the scope at `at` itself.
    pub open spec fn lookup_direct(self, at: nat, name: Seq<char>) -> Option<ValueView> {
        if at < self.scopes.len() && self.scopes[at as int].vars.contains_key(name) {
            Some(self.scopes[at as int].vars[name])
        } else {
            None
        }
    }

    /// The machine after `name` was bound to `value` in the current scope.
    pub open spec fn bind(self, name: Seq<char>, value: ValueView) -> VmView {
        let scope = self.scopes[self.current as int];
        VmView {
            scopes: self.scopes.update(
                self.current as int,
                ScopeView { vars: scope.vars.insert(name, value), ..scope },
            ),
            ..self
        }
    }

    /// The machine after each of `arguments` was bound under its label in
    /// the current scope, the first one first.
    pub open spec fn bind_all(self, arguments: ArgumentsView) -> VmView
        decreases arguments.len(),
    {
        if arguments.len() == 0 {
            self
        } else {
            self.bind_all(arguments.drop_last()).bind(arguments.last().0, arguments.last().1)
        }
    }

    /// The machine after a new scope was made as the child of the current
    /// one, and entered.
    pub open spec fn pushed(self) -> VmView {
        let scope = self.scopes[self.current as int];
        VmView {
            scopes: self.scopes.update(
                self.current as int,
                ScopeView { child: Some(self.scopes.len()), ..scope },
            ).push(ScopeView { vars: Map::empty(), parent: Some(self.current), child: None }),
            current: self.scopes.len(),
        }
    }

    /// The machine after the current scope was left for its parent. The
    /// scope stays where it is, for the closures that were made in it.
    pub open spec fn popped(self) -> VmView
        recommends
            self.scopes[self.current as int].parent is Some,
    {
        let parent = self.scopes[self.current as int].parent->0;
        let scope = self.scopes[parent as int];
        VmView {
            scopes: self.scopes.update(parent as int, ScopeView { child: None, ..scope }),
            current: parent,
        }
    }

    /// The closure that the last name of `path` leads to. An empty segment
    /// moves to the parent of the current scope. A name is looked up in the
    /// scope that was reached, and no further; where it is bound to a closure,
    /// the scope in which the closure was made is reached. Anything else ends
    /// the walk without a result.
    pub open spec fn resolve_path(self, path: Seq<Seq<char>>) -> Option<ValueView> {
        self.resolve_path_from(path, self.current, None)
    }

    /// The result of walking `path` from the scope at `cursor`, where
    /// `found` is what the segments before led to.
    pub open spec fn resolve_path_from(
        self,
        path: Seq<Seq<char>>,
        cursor: nat,
        found: Option<ValueView>,
    ) -> Option<ValueView>
        decreases path.len(),
    {
        if path.len() == 0 {
            found
        } else if path[0].len() == 0 {
            match self.scopes[self.current as int].parent {
                Some(parent) => self.resolve_path_from(path.drop_first(), parent, found),
                None => None,
            }
        } else {
            match self.lookup_direct(cursor, path[0]) {
                Some(ValueView::Procedure(closure)) => self.resolve_path_from(
                    path.drop_first(),
                    closure.scope,
                    Some(ValueView::Procedure(closure)),
                ),
                _ => None,
            }
        }
    }

    /// Whether `later` can follow from this machine by evaluation: the
    /// current scope is the same, no scope is lost, and of the scopes that
    /// were there only the current one has other bindings.
    pub open spec fn extended_by(self, later: VmView) -> bool {
        &&& later.current == self.current
        &&& later.scopes.len() >= self.scopes.len()
        &&& forall|i: int|
            0 <= i < self.scopes.len() ==> {
                &&& (#[trigger] later.scopes[i]).parent == self.scopes[i].parent
                &&& later.scopes[i].child == self.scopes[i].child
                &&& i != self.current ==> later.scopes[i].vars == self.scopes[i].vars
            }
    }

    /// Whether `later` has every scope of this machine as it is here.
    pub open spec fn kept_by(self, later: VmView) -> bool {
        &&& self.extended_by(later)
        &&& later.scopes[self.current as int].vars == self.scopes[self.current as int].vars
    }
}

/// The machine after the names of the built-in procedures were bound in the
/// current scope.
pub open spec fn standard_model(vm: VmView) -> VmView {
    vm.bind("let"@, ValueView::NativeProcedure(Builtin::Let)).bind(
        "show"@,
        ValueView::NativeProcedure(Builtin::Show),
    ).bind("get"@, ValueView::NativeProcedure(Builtin::Get)).bind(
        "+"@,
        ValueView::NativeProcedure(Builtin::Add),
    ).bind("-"@, ValueView::NativeProcedure(Builtin::Sub)).bind(
        "*"@,
        ValueView::NativeProcedure(Builtin::Mult),
    ).bind("/"@, ValueView::NativeProcedure(Builtin::Div)).bind(
        "%"@,
        ValueView::NativeProcedure(Builtin::Modulo),
    )
}

/// The name that the argument at `pos` gives: its label or, where that is
/// empty and the value is a bare name, this name; else the empty name.
pub open spec fn first_argname(arguments: ArgumentsView, pos: int) -> Seq<char> {
    if arguments[pos].0.len() > 0 {
        arguments[pos].0
    } else {
        match arguments[pos].1 {
            ValueView::Primitive(PrimitiveView::Name(name)) => name,
            _ => Seq::empty(),
        }
    }
}

/// The name that the unevaluated argument at `pos` gives: its label or,
/// where that is empty and the expression is a bare name, this name; else
/// the empty name.
pub open spec fn raw_argname(arguments: Seq<(Seq<char>, ExpressionView)>, pos: int) -> Seq<char> {
    if arguments[pos].0.len() > 0 {
        arguments[pos].0
    } else {
        match arguments[pos].1 {
            ExpressionView::Primitive(PrimitiveView::Name(name)) => name,
            _ => Seq::empty(),
        }
    }
}

/// The labels of arguments.
pub open spec fn labels(arguments: Seq<(Seq<char>, ExpressionView)>) -> Seq<Seq<char>> {
    Seq::new(arguments.len(), |i: int| arguments[i].0)
}

/// The value or, where there is none, unit.
pub open spec fn or_unit(found: Option<ValueView>) -> ValueView {
    match found {
        Some(value) => value,
        None => ValueView::Unit,
    }
}

/// The operation that a built-in procedure of arithmetic stands for.
pub open spec fn operator_of(builtin: Builtin) -> Option<Operator> {
    match builtin {
        Builtin::Add => Some(Operator::Add),
        Builtin::Sub => Some(Operator::Sub),
        Builtin::Mult => Some(Operator::Mult),
        Builtin::Div => Some(Operator::Div),
        Builtin::Modulo => Some(Operator::Modulo),
        _ => None,
    }
}

/// The number that a value stands for in arithmetic, where it is a whole
/// number that a double holds exactly: a boolean counts one or zero, a name
/// counts what it is bound to, a path counts what it leads to, and what is
/// no number counts zero. Names are followed `fuel` times and no further.
pub open spec fn number_model(vm: VmView, value: ValueView, fuel: nat) -> Option<int>
    decreases fuel,
{
    match value {
        ValueView::Primitive(PrimitiveView::Bool(b)) => Some(
            if b {
                1int
            } else {
                0int
            },
        ),
        ValueView::Primitive(PrimitiveView::Byte(v)) => Some(v as int),
        ValueView::Primitive(PrimitiveView::Int(v)) => if is_exact(v as int) {
            Some(v as int)
        } else {
            None
        },
        ValueView::Primitive(PrimitiveView::Float(_)) => None,
        ValueView::Primitive(PrimitiveView::Name(name)) => if fuel == 0 {
            Some(0int)
        } else {
            number_model(vm, or_unit(vm.lookup(name)), (fuel - 1) as nat)
        },
        ValueView::Path(path) => if fuel == 0 {
            Some(0int)
        } else {
            number_model(vm, or_unit(vm.resolve_path(path)), (fuel - 1) as nat)
        },
        _ => Some(0int),
    }
}

/// The numbers that arguments stand for.
pub open spec fn operands_model(vm: VmView, arguments: ArgumentsView, fuel: nat) -> Seq<
    Option<int>,
> {
    Seq::new(arguments.len(), |i: int| number_model(vm, arguments[i].1, fuel))
}

/// The result of arithmetic on arguments, where whole numbers decide it:
/// the integer zero for no argument, else what the operation makes of the
/// numbers that the arguments stand for, taken pairwise from the left.
pub open spec fn arithmetic_model(
    vm: VmView,
    operator: Operator,
    arguments: ArgumentsView,
    fuel: nat,
) -> Option<ValueView> {
    if arguments.len() == 0 {
        Some(ValueView::Primitive(PrimitiveView::Int(0)))
    } else {
        match fold_exact(operator, operands_model(vm, arguments, fuel)) {
            Some(n) => Some(ValueView::Primitive(PrimitiveView::Int(n as i64))),
            None => None,
        }
    }
}

/// What `let` does: with fewer than two arguments nothing, and the result
/// is unit; else it binds the name that the first argument gives to the
/// value of the second one in the current scope, and this value is the
/// result.
pub open spec fn let_model(vm: VmView, arguments: ArgumentsView) -> (VmView, ValueView) {
    if arguments.len() < 2 {
        (vm, ValueView::Unit)
    } else {
        (vm.bind(first_argname(arguments, 0), arguments[1].1), arguments[1].1)
    }
}

/// What `get` returns: with one argument what the name that it gives is
/// bound to, as seen from the current scope, and unit where it is not bound;
/// with no argument or more than one, unit.
pub open spec fn get_model(vm: VmView, arguments: ArgumentsView) -> ValueView {
    if arguments.len() == 1 {
        or_unit(vm.lookup(first_argname(arguments, 0)))
    } else {
        ValueView::Unit
    }
}

/// The machine and the result after a built-in procedure was applied to
/// arguments; none where arithmetic is not decided by whole numbers.
pub open spec fn native_model(vm: VmView, builtin: Builtin, arguments: ArgumentsView, fuel: nat)
    -> Option<(VmView, ValueView)> {
    match builtin {
        Builtin::Let => Some(let_model(vm, arguments)),
        Builtin::Get => Some((vm, get_model(vm, arguments))),
        Builtin::Show => Some((vm, ValueView::Unit)),
        _ => match arithmetic_model(vm, operator_of(builtin)->0, arguments, fuel) {
            Some(value) => Some((vm, value)),
            None => None,
        },
    }
}

/// The machine and the result after `expression` was evaluated; none where
/// arithmetic on the way is not decided by whole numbers.
///
/// A literal is its own value. A bare name or a path is looked up where
/// `dereference` is set, with unit for what is not found, and is its own
/// value where it is not set. A procedure literal makes a closure of the
/// current scope. A command is applied. A block is evaluated command by
/// command in a new scope, which is left behind it; its result is that of
/// its last command, and unit where it has none. Closures are entered
/// `fuel` deep and no deeper.
pub open spec fn eval_model(vm: VmView, expression: ExpressionView, dereference: bool, fuel: nat)
    -> Option<(VmView, ValueView)>
    decreases fuel, expression,
{
    match expression {
        ExpressionView::Path(path) => Some(
            (
                vm,
                if dereference {
                    or_unit(vm.resolve_path(path))
                } else {
                    ValueView::Path(path)
                },
            ),
        ),
        ExpressionView::Primitive(PrimitiveView::Name(name)) => Some(
            (
                vm,
                if dereference {
                    or_unit(vm.lookup(name))
                } else {
                    ValueView::Primitive(PrimitiveView::Name(name))
                },
            ),
        ),
        ExpressionView::Primitive(data) => Some((vm, ValueView::Primitive(data))),
        ExpressionView::Procedure(parameters, body) => Some(
            (
                vm,
                ValueView::Procedure(
                    ProcedureView { argnames: labels(parameters), body, scope: vm.current },
                ),
            ),
        ),
        ExpressionView::Unit => Some((vm, ValueView::Unit)),
        ExpressionView::Expression(command) => command_model(vm, command, fuel),
        ExpressionView::Block(commands) => match body_model(vm.pushed(), commands, fuel) {
            Some((after, value)) => Some((after.popped(), value)),
            None => None,
        },
    }
}

/// The machine and the result after `command` was applied.
///
/// Its name is looked up from the current scope. Where it is bound to a
/// built-in procedure, the arguments are evaluated without dereferencing,
/// and the procedure is applied to them. Where it is bound to a closure, a
/// new scope is entered, the arguments are evaluated in it with
/// dereferencing and bound in it under their labels, the body of the
/// closure is evaluated in it, and it is left. Where the name is not bound,
/// or to something else, or no fuel is left for a closure, nothing happens,
/// and the result is unit.
pub open spec fn command_model(vm: VmView, command: CommandView, fuel: nat) -> Option<
    (VmView, ValueView),
>
    decreases fuel, command,
{
    match vm.lookup(command.name) {
        Some(ValueView::NativeProcedure(builtin)) => match arguments_model(
            vm,
            command.args,
            false,
            fuel,
        ) {
            Some((after, values)) => native_model(after, builtin, values, fuel),
            None => None,
        },
        Some(ValueView::Procedure(closure)) => if fuel == 0 {
            Some((vm, ValueView::Unit))
        } else {
            match arguments_model(vm.pushed(), command.args, true, fuel) {
                Some((after, values)) => match body_model(
                    after.bind_all(values),
                    closure.body,
                    (fuel - 1) as nat,
                ) {
                    Some((last, value)) => Some((last.popped(), value)),
                    None => None,
                },
                None => None,
            }
        },
        _ => Some((vm, ValueView::Unit)),
    }
}

/// The machine after `arguments` were evaluated, the first one first, and
/// their values under their labels.
pub open spec fn arguments_model(
    vm: VmView,
    arguments: Seq<(Seq<char>, ExpressionView)>,
    dereference: bool,
    fuel: nat,
) -> Option<(VmView, ArgumentsView)>
    decreases fuel, arguments,
{
    if arguments.len() == 0 {
        Some((vm, Seq::empty()))
    } else {
        match arguments_model(vm, arguments.drop_last(), dereference, fuel) {
            Some((before, values)) => match eval_model(
                before,
                arguments.last().1,
                dereference,
                fuel,
            ) {
                Some((after, value)) => Some((after, values.push((arguments.last().0, value)))),
                None => None,
            },
            None => None,
        }
    }
}

/// The machine after `commands` were applied, the first one first, and the
/// result of the last one; unit where there is none.
pub open spec fn body_model(vm: VmView, commands: Seq<CommandView>, fuel: nat) -> Option<
    (VmView, ValueView),
>
    decreases fuel, commands,
{
    if commands.len() == 0 {
        Some((vm, ValueView::Unit))
    } else {
        match body_model(vm, commands.drop_last(), fuel) {
            Some((before, _)) => command_model(before, commands.last(), fuel),
            None => None,
        }
    }
}

/// What follows from what follows from a machine follows from it.
pub proof fn lemma_extended_transitive(a: VmView, b: VmView, c: VmView)
    requires
        a.extended_by(b),
        b.extended_by(c),
    ensures
        a.extended_by(c),
{
    assert forall|i: int| 0 <= i < a.scopes.len() implies {
        &&& (#[trigger] c.scopes[i]).parent == a.scopes[i].parent
        &&& c.scopes[i].child == a.scopes[i].child
        &&& i != a.current ==> c.scopes[i].vars == a.scopes[i].vars
    } by {
        assert(b.scopes[i].parent == a.scopes[i].parent);
    }
}

/// A binding in the current scope leaves every other scope as it is.
pub proof fn lemma_bind_extends(vm: VmView, name: Seq<char>, value: ValueView)
    requires
        vm.wf(),
    ensures
        vm.bind(name, value).wf(),
        vm.extended_by(vm.bind(name, value)),
{
    let after = vm.bind(name, value);
    assert forall|i: int| 0 <= i < after.scopes.len() implies (
    #[trigger] after.scopes[i].parent matches Some(p) ==> p < i) by {
        assert(after.scopes[i].parent == vm.scopes[i].parent);
    }
}

/// Bindings in the current scope leave every other scope as it is.
pub proof fn lemma_bind_all_extends(vm: VmView, arguments: ArgumentsView)
    requires
        vm.wf(),
    ensures
        vm.bind_all(arguments).wf(),
        vm.extended_by(vm.bind_all(arguments)),
    decreases arguments.len(),
{
    if arguments.len() > 0 {
        let before = vm.bind_all(arguments.drop_last());
        lemma_bind_all_extends(vm, arguments.drop_last());
        lemma_bind_extends(before, arguments.last().0, arguments.last().1);
        lemma_extended_transitive(vm, before, vm.bind_all(arguments));
    }
}

/// Entering a scope keeps the machine well formed.
pub proof fn lemma_pushed_wf(vm: VmView)
    requires
        vm.wf(),
    ensures
        vm.pushed().wf(),
        vm.pushed().scopes[vm.pushed().current as int].parent == Some(vm.current),
{
    let after = vm.pushed();
    assert forall|i: int| 0 <= i < after.scopes.len() implies (
    #[trigger] after.scopes[i].parent matches Some(p) ==> p < i) by {
        if i < vm.scopes.len() {
            assert(after.scopes[i].parent == vm.scopes[i].parent);
        }
    }
}

/// What happens in a scope that was entered is gone when it is left: every
/// scope that was there before is as it was.
pub proof fn lemma_scope_left(vm: VmView, inside: VmView)
    requires
        vm.wf(),
        inside.wf(),
        vm.pushed().extended_by(inside),
    ensures
        inside.scopes[inside.current as int].parent == Some(vm.current),
        inside.popped().wf(),
        vm.kept_by(inside.popped()),
{
    let entered = vm.pushed();
    let after = inside.popped();
    assert(entered.scopes[entered.current as int].parent == Some(vm.current));
    assert(inside.scopes[entered.current as int].parent == entered.scopes[entered.current
        as int].parent);
    assert forall|i: int| 0 <= i < after.scopes.len() implies (
    #[trigger] after.scopes[i].parent matches Some(p) ==> p < i) by {
        assert(after.scopes[i].parent == inside.scopes[i].parent);
    }
    assert forall|i: int| 0 <= i < vm.scopes.len() implies {
        &&& (#[trigger] after.scopes[i]).parent == vm.scopes[i].parent
        &&& after.scopes[i].child == vm.scopes[i].child
        &&& after.scopes[i].vars == vm.scopes[i].vars
    } by {
        assert(inside.scopes[i].parent == entered.scopes[i].parent);
        assert(entered.scopes[i].parent == vm.scopes[i].parent);
    }
}

/// What a name is bound to, as seen from a scope, is decided by the
/// bindings and the parents of this scope and of those that were made
/// before it.
pub proof fn lemma_lookup_from_alike(vm: VmView, other: VmView, at: nat, name: Seq<char>)
    requires
        at < vm.scopes.len(),
        at < other.scopes.len(),
        forall|i: int|
            0 <= i <= at ==> (#[trigger] other.scopes[i]).vars == vm.scopes[i].vars
                && other.scopes[i].parent == vm.scopes[i].parent,
    ensures
        other.lookup_from(at, name) == vm.lookup_from(at, name),
    decreases at,
{
    assert(other.scopes[at as int].parent == vm.scopes[at as int].parent);
    if !vm.scopes[at as int].vars.contains_key(name) {
        if let Some(p) = vm.scopes[at as int].parent {
            if p < at {
                lemma_lookup_from_alike(vm, other, p, name);
            }
        }
    }
}

/// Where every scope is as it was, every name is bound to what it was
/// bound to.
pub proof fn lemma_kept_lookup_from(vm: VmView, later: VmView, at: nat, name: Seq<char>)
    requires
        vm.kept_by(later),
        at < vm.scopes.len(),
    ensures
        later.lookup_from(at, name) == vm.lookup_from(at, name),
{
    assert forall|i: int| 0 <= i <= at implies (#[trigger] later.scopes[i]).vars
        == vm.scopes[i].vars && later.scopes[i].parent == vm.scopes[i].parent by {
        assert(later.scopes[i].parent == vm.scopes[i].parent);
    }
    lemma_lookup_from_alike(vm, later, at, name);
}

/// Looking up does not depend on which scope is the current one.
pub proof fn lemma_lookup_ignores_current(vm: VmView, current: nat, at: nat, name: Seq<char>)
    ensures
        (VmView { current, ..vm }).lookup_from(at, name) == vm.lookup_from(at, name),
    decreases at,
{
    if at < vm.scopes.len() && !vm.scopes[at as int].vars.contains_key(name) {
        if let Some(p) = vm.scopes[at as int].parent {
            if p < at {
                lemma_lookup_ignores_current(vm, current, p, name);
            }
        }
    }
}

} // verus!
