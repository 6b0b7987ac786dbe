//! The evaluator: values, scopes, the machine that holds them, the built-in
//! procedures and the evaluation of expressions.

use vstd::prelude::*;
use crate::arith::Doubles;
use crate::arith::EXACT_LIMIT;
use crate::arith::exact_values;
use crate::arith::finish;
use crate::arith::fold_numbers;
use crate::arith::Number;
use crate::arith::Operator;
use crate::assoc::entries_map;
use crate::assoc::find_entry;
use crate::assoc::lemma_entries_alike;
use crate::assoc::lemma_entry_absent;
use crate::assoc::lemma_entry_found;
use crate::assoc::lemma_entry_pushed;
use crate::assoc::lemma_entry_update;
use crate::model::PrimitiveData;
use crate::parser::arguments_view;
use crate::parser::clone_commands;
use crate::parser::clone_names;
use crate::parser::Command;
use crate::parser::commands_view;
use crate::parser::ExpressionValue;
use crate::parser::names_view;
use crate::semantics::arguments_model;
use crate::semantics::ArgumentsView;
use crate::semantics::arithmetic_model;
use crate::semantics::body_model;
use crate::semantics::Builtin;
use crate::semantics::command_model;
use crate::semantics::eval_model;
use crate::semantics::first_argname;
use crate::semantics::get_model;
use crate::semantics::labels;
use crate::semantics::lemma_bind_all_extends;
use crate::semantics::lemma_bind_extends;
use crate::semantics::lemma_extended_transitive;
use crate::semantics::lemma_kept_lookup_from;
use crate::semantics::lemma_lookup_ignores_current;
use crate::semantics::lemma_pushed_wf;
use crate::semantics::lemma_scope_left;
use crate::semantics::let_model;
use crate::semantics::native_model;
use crate::semantics::number_model;
use crate::semantics::operands_model;
use crate::semantics::ProcedureView;
use crate::semantics::raw_argname;
use crate::semantics::ScopeView;
use crate::semantics::standard_model;
use crate::semantics::ValueView;
use crate::semantics::VmView;

verus! {

/// The place of a scope among the scopes of a machine.
pub type ScopeId = usize;

/// A closure: the labels of its parameter list, its body and the scope in
/// which it was made.
#[derive(Debug, PartialEq)]
pub struct Procedure {
    pub argnames: Vec<String>,
    pub body: Vec<Command>,
    pub scope: ScopeId,
}

/// A built-in procedure.
#[derive(Debug, PartialEq)]
pub struct NativeProcedure {
    pub proc: Builtin,
}

/// The result of an evaluation.
#[derive(Debug, PartialEq)]
pub enum Value {
    Unit,
    Primitive(PrimitiveData),
    Procedure(Procedure),
    NativeProcedure(NativeProcedure),
    Path(Vec<String>),
}

impl View for Procedure {
    type V = ProcedureView;

    open spec fn view(&self) -> ProcedureView {
        ProcedureView {
            argnames: names_view(self.argnames@),
            body: commands_view(self.body@),
            scope: self.scope as nat,
        }
    }
}

impl View for Value {
    type V = ValueView;

    open spec fn view(&self) -> ValueView {
        match self {
            Value::Unit => ValueView::Unit,
            Value::Primitive(data) => ValueView::Primitive(data@),
            Value::Procedure(closure) => ValueView::Procedure(closure@),
            Value::NativeProcedure(native) => ValueView::NativeProcedure(native.proc),
            Value::Path(path) => ValueView::Path(names_view(path@)),
        }
    }
}

impl Clone for Procedure {
    fn clone(&self) -> (r: Self)
        ensures
            r@ == self@,
    {
        Procedure {
            argnames: clone_names(&self.argnames),
            body: clone_commands(&self.body),
            scope: self.scope,
        }
    }
}

impl Clone for NativeProcedure {
    fn clone(&self) -> (r: Self)
        ensures
            r == *self,
    {
        NativeProcedure { proc: self.proc }
    }
}

impl Clone for Value {
    fn clone(&self) -> (r: Self)
        ensures
            r@ == self@,
    {
        match self {
            Value::Unit => Value::Unit,
            Value::Primitive(data) => Value::Primitive(data.clone()),
            Value::Procedure(closure) => Value::Procedure(closure.clone()),
            Value::NativeProcedure(native) => Value::NativeProcedure(native.clone()),
            Value::Path(path) => Value::Path(clone_names(path)),
        }
    }
}

impl NativeProcedure {
    pub fn new(proc: Builtin) -> (r: Self)
        ensures
            r.proc == proc,
    {
        NativeProcedure { proc }
    }
}

/// What a value that may be there is.
pub open spec fn found_view(found: Option<Value>) -> Option<ValueView> {
    match found {
        Some(value) => Some(value@),
        None => None,
    }
}

/// What evaluated arguments are.
pub open spec fn values_view(arguments: Seq<(String, Value)>) -> ArgumentsView {
    Seq::new(arguments.len(), |i: int| (arguments[i].0@, arguments[i].1@))
}

/// A scope: the names that it binds, and the places of its parent and of
/// its active child.
#[derive(Debug)]
pub struct VMScope {
    vars: Vec<(String, Value)>,
    parent: Option<ScopeId>,
    child: Option<ScopeId>,
}

/// The place, as a number.
pub open spec fn place_view(place: Option<ScopeId>) -> Option<nat> {
    match place {
        Some(id) => Some(id as nat),
        None => None,
    }
}

impl View for VMScope {
    type V = ScopeView;

    closed spec fn view(&self) -> ScopeView {
        ScopeView {
            vars: entries_map(self.vars@),
            parent: place_view(self.parent),
            child: place_view(self.child),
        }
    }
}

/// What scopes are.
pub open spec fn scopes_view(scopes: Seq<VMScope>) -> Seq<ScopeView> {
    Seq::new(scopes.len(), |i: int| scopes[i]@)
}

impl VMScope {
    /// A scope without bindings and without a child.
    pub fn new(parent: Option<ScopeId>) -> (r: VMScope)
        ensures
            r@ == (ScopeView { vars: Map::empty(), parent: place_view(parent), child: None }),
    {
        VMScope { vars: Vec::new(), parent, child: None }
    }

    /// The place of the parent.
    pub fn parent(&self) -> (r: Option<ScopeId>)
        ensures
            place_view(r) == self@.parent,
    {
        self.parent
    }

    /// The place of the active child.
    pub fn child(&self) -> (r: Option<ScopeId>)
        ensures
            place_view(r) == self@.child,
    {
        self.child
    }

    /// The value that this scope itself binds `name` to.
    pub fn lookup_direct_value(&self, name: &str) -> (r: Option<Value>)
        ensures
            found_view(r) == if self@.vars.contains_key(name@) {
                Some(self@.vars[name@])
            } else {
                None
            },
    {
        let key = name.to_owned();
        match find_entry(&self.vars, &key) {
            Some(i) => {
                proof {
                    lemma_entry_found(self.vars@, i as int, name@);
                }
                Some(self.vars[i].1.clone())
            },
            None => {
                proof {
                    lemma_entry_absent(self.vars@, name@);
                }
                None
            },
        }
    }

    /// The value that `name` is bound to in this scope or, where it does not
    /// bind it, in the nearest of its ancestors in `arena` that does.
    pub fn lookup_value(&self, arena: &Vec<VMScope>, name: &str) -> (r: Option<Value>)
        ensures
            found_view(r) == if self@.vars.contains_key(name@) {
                Some(self@.vars[name@])
            } else {
                match self@.parent {
                    Some(p) => (VmView { scopes: scopes_view(arena@), current: 0 }).lookup_from(
                        p,
                        name@,
                    ),
                    None => None,
                }
            },
    {
        if let Some(value) = self.lookup_direct_value(name) {
            return Some(value);
        }
        let ghost machine = VmView { scopes: scopes_view(arena@), current: 0 };
        let ghost wanted = match self@.parent {
            Some(p) => machine.lookup_from(p, name@),
            None => None,
        };
        let mut cursor: Option<ScopeId> = self.parent;
        loop
            invariant
                machine == (VmView { scopes: scopes_view(arena@), current: 0 }),
                !self@.vars.contains_key(name@),
                wanted == match self@.parent {
                    Some(p) => machine.lookup_from(p, name@),
                    None => None,
                },
                wanted == match cursor {
                    Some(p) => machine.lookup_from(p as nat, name@),
                    None => None,
                },
            decreases
                    match cursor {
                        Some(p) => p + 1,
                        None => 0,
                    },
        {
            match cursor {
                None => {
                    return None;
                },
                Some(at) => {
                    if at >= arena.len() {
                        return None;
                    }
                    if let Some(value) = arena[at].lookup_direct_value(name) {
                        return Some(value);
                    }
                    match arena[at].parent {
                        Some(next) => {
                            if next < at {
                                cursor = Some(next);
                            } else {
                                return None;
                            }
                        },
                        None => {
                            return None;
                        },
                    }
                },
            }
        }
    }

    /// Binds `name` to `val`, in place of what it was bound to.
    pub fn set_value(&mut self, name: &str, val: &Value)
        ensures
            final(self)@ == (ScopeView {
                vars: old(self)@.vars.insert(name@, val@),
                ..old(self)@
            }),
    {
        let key = name.to_owned();
        let entry = (key, val.clone());
        match find_entry(&self.vars, &entry.0) {
            Some(i) => {
                proof {
                    lemma_entry_update(self.vars@, i as int, entry);
                }
                self.vars[i] = entry;
            },
            None => {
                proof {
                    lemma_entry_pushed(self.vars@, entry);
                }
                self.vars.push(entry);
            },
        }
    }

    /// Makes `child` the active child.
    pub fn push_scope(&mut self, child: ScopeId)
        requires
            old(self)@.child is None,
        ensures
            final(self)@ == (ScopeView { child: Some(child as nat), ..old(self)@ }),
    {
        self.child = Some(child);
    }

    /// Leaves the scope without an active child.
    pub fn pop_scope(&mut self)
        requires
            old(self)@.child is Some,
        ensures
            final(self)@ == (ScopeView { child: None, ..old(self)@ }),
    {
        self.child = None;
    }

    /// The names that this scope binds, each with its value. Where a name
    /// was bound again, it stands at the place of its first binding.
    pub fn bindings(&self) -> (r: Vec<(String, Value)>)
        ensures
            entries_map(r@) == self@.vars,
    {
        let mut out: Vec<(String, Value)> = Vec::new();
        let mut i: usize = 0;
        while i < self.vars.len()
            invariant
                i <= self.vars@.len(),
                out@.len() == i,
                forall|j: int|
                    0 <= j < i ==> out@[j].0@ == self.vars@[j].0@ && out@[j].1@ == self.vars@[j].1@,
            decreases self.vars@.len() - i,
        {
            out.push((self.vars[i].0.clone(), self.vars[i].1.clone()));
            i += 1;
        }
        proof {
            lemma_entries_alike(out@, self.vars@);
        }
        out
    }
}

/// The machine: every scope that was made, the place of the current one,
/// and the arithmetic of doubles.
pub struct VM<D> {
    scopes: Vec<VMScope>,
    curr_scope: ScopeId,
    doubles: D,
}

impl<D> View for VM<D> {
    type V = VmView;

    closed spec fn view(&self) -> VmView {
        VmView { scopes: scopes_view(self.scopes@), current: self.curr_scope as nat }
    }
}

impl<D: Doubles> VM<D> {
    /// A machine with one scope, which binds nothing.
    pub fn new(doubles: D) -> (r: VM<D>)
        ensures
            r@.wf(),
            r@ == (VmView {
                scopes: seq![ScopeView { vars: Map::empty(), parent: None, child: None }],
                current: 0,
            }),
    {
        let mut scopes: Vec<VMScope> = Vec::new();
        scopes.push(VMScope::new(None));
        let vm = VM { scopes, curr_scope: 0, doubles };
        assert(vm@.scopes =~= seq![ScopeView { vars: Map::empty(), parent: None, child: None }]);
        vm
    }

    /// Binds the names of the built-in procedures in the current scope:
    /// `let`, `show`, `get`, `+`, `-`, `*`, `/` and `%`.
    pub fn define_standard_functions(&mut self)
        requires
            old(self)@.wf(),
        ensures
            final(self)@.wf(),
            final(self)@ == standard_model(old(self)@),
    {
        self.set_value("let", &Value::NativeProcedure(NativeProcedure::new(Builtin::Let)));
        self.set_value("show", &Value::NativeProcedure(NativeProcedure::new(Builtin::Show)));
        self.set_value("get", &Value::NativeProcedure(NativeProcedure::new(Builtin::Get)));
        self.set_value("+", &Value::NativeProcedure(NativeProcedure::new(Builtin::Add)));
        self.set_value("-", &Value::NativeProcedure(NativeProcedure::new(Builtin::Sub)));
        self.set_value("*", &Value::NativeProcedure(NativeProcedure::new(Builtin::Mult)));
        self.set_value("/", &Value::NativeProcedure(NativeProcedure::new(Builtin::Div)));
        self.set_value("%", &Value::NativeProcedure(NativeProcedure::new(Builtin::Modulo)));
    }

    /// Binds `name` to `val` in the current scope.
    pub fn set_value(&mut self, name: &str, val: &Value)
        requires
            old(self)@.wf(),
        ensures
            final(self)@ == old(self)@.bind(name@, val@),
            final(self)@.wf(),
    {
        let at = self.curr_scope;
        self.scopes[at].set_value(name, val);
        assert(self@.scopes =~= old(self)@.bind(name@, val@).scopes);
    }

    /// Makes a scope as the child of the current one, and enters it.
    pub fn push_scope(&mut self)
        requires
            old(self)@.wf(),
        ensures
            final(self)@ == old(self)@.pushed(),
            final(self)@.wf(),
    {
        let parent = self.curr_scope;
        let child = self.scopes.len();
        self.scopes[parent].push_scope(child);
        self.scopes.push(VMScope::new(Some(parent)));
        self.curr_scope = child;
        assert(self@.scopes =~= old(self)@.pushed().scopes);
    }

    /// Leaves the current scope for its parent.
    pub fn pop_scope(&mut self)
        requires
            old(self)@.wf(),
            old(self)@.scopes[old(self)@.current as int].parent is Some,
        ensures
            final(self)@ == old(self)@.popped(),
            final(self)@.wf(),
    {
        let parent = self.scopes[self.curr_scope].parent.unwrap();
        self.scopes[parent].child = None;
        self.curr_scope = parent;
        assert(self@.scopes =~= old(self)@.popped().scopes);
    }

    /// Every scope that was made, in the order of their making.
    pub fn scopes(&self) -> (r: &Vec<VMScope>)
        ensures
            scopes_view(r@) == self@.scopes,
    {
        &self.scopes
    }

    /// The place of the parent of the current scope.
    pub fn get_parent_scope(&self) -> (r: Option<ScopeId>)
        requires
            self@.wf(),
        ensures
            place_view(r) == self@.scopes[self@.current as int].parent,
    {
        self.scopes[self.curr_scope].parent
    }

    /// The place of the current scope.
    pub fn get_current_scope(&self) -> (r: ScopeId)
        ensures
            r == self@.current,
    {
        self.curr_scope
    }

    /// The value that the current scope itself binds `name` to.
    pub fn lookup_direct_value(&self, name: &str) -> (r: Option<Value>)
        requires
            self@.wf(),
        ensures
            found_view(r) == self@.lookup_direct(self@.current, name@),
    {
        self.scopes[self.curr_scope].lookup_direct_value(name)
    }

    /// The value that `name` is bound to, as seen from the current scope.
    pub fn lookup_value(&self, name: &str) -> (r: Option<Value>)
        requires
            self@.wf(),
        ensures
            found_view(r) == self@.lookup(name@),
    {
        proof {
            lemma_lookup_ignores_current(self@, 0, self@.current, name@);
        }
        self.scopes[self.curr_scope].lookup_value(&self.scopes, name)
    }

    /// The names that the current scope itself binds, each with its value.
    pub fn current_bindings(&self) -> (r: Vec<(String, Value)>)
        requires
            self@.wf(),
        ensures
            entries_map(r@) == self@.scopes[self@.current as int].vars,
    {
        self.scopes[self.curr_scope].bindings()
    }

    /// The closure that `path` leads to.
    pub fn lookup_path(&self, path: &Vec<String>) -> (r: Option<Value>)
        requires
            self@.wf(),
        ensures
            found_view(r) == self@.resolve_path(names_view(path@)),
    {
        let ghost names = names_view(path@);
        let mut found: Option<Value> = None;
        let mut cursor: ScopeId = self.curr_scope;
        let mut i: usize = 0;
        assert(names.skip(0) =~= names);
        while i < path.len()
            invariant
                i <= path@.len(),
                self@.wf(),
                names == names_view(path@),
                self@.resolve_path(names) == self@.resolve_path_from(
                    names.skip(i as int),
                    cursor as nat,
                    found_view(found),
                ),
            decreases path@.len() - i,
        {
            proof {
                assert(names.skip(i as int).drop_first() =~= names.skip(i + 1));
                assert(names.skip(i as int)[0] == path@[i as int]@);
            }
            if path[i].as_str().is_empty() {
                match self.get_parent_scope() {
                    Some(parent) => {
                        cursor = parent;
                    },
                    None => {
                        return None;
                    },
                }
            } else {
                if cursor >= self.scopes.len() {
                    return None;
                }
                match self.scopes[cursor].lookup_direct_value(path[i].as_str()) {
                    Some(Value::Procedure(closure)) => {
                        cursor = closure.scope;
                        found = Some(Value::Procedure(closure));
                    },
                    _ => {
                        return None;
                    },
                }
            }
            i += 1;
        }
        found
    }
}

/// How deep closures may be entered, one from the body of another, and how
/// many names are followed to find a number.
pub const CALL_DEPTH_LIMIT: usize = 256;

/// The name that the argument at `pos` gives.
pub fn extract_first_argname(args: &Vec<(String, Value)>, pos: usize) -> (r: String)
    requires
        pos < args@.len(),
    ensures
        r@ == first_argname(values_view(args@), pos as int),
{
    if !args[pos].0.as_str().is_empty() {
        return args[pos].0.clone();
    }
    match &args[pos].1 {
        Value::Primitive(PrimitiveData::Name(name)) => name.clone(),
        _ => String::new(),
    }
}

/// The name that the unevaluated argument at `pos` gives.
pub fn extract_raw_name(args: &Vec<(String, ExpressionValue)>, pos: usize) -> (r: String)
    requires
        pos < args@.len(),
    ensures
        r@ == raw_argname(arguments_view(args@), pos as int),
{
    if !args[pos].0.as_str().is_empty() {
        return args[pos].0.clone();
    }
    match &args[pos].1 {
        ExpressionValue::Primitive(PrimitiveData::Name(name)) => name.clone(),
        _ => String::new(),
    }
}

/// The built-in procedure `let`.
pub fn shock_let<D: Doubles>(args: Vec<(String, Value)>, vm: &mut VM<D>) -> (r: Value)
    requires
        old(vm)@.wf(),
    ensures
        final(vm)@.wf(),
        (final(vm)@, r@) == let_model(old(vm)@, values_view(args@)),
{
    if args.len() < 2 {
        return Value::Unit;
    }
    let name = extract_first_argname(&args, 0);
    let value = args[1].1.clone();
    vm.set_value(name.as_str(), &value);
    value
}

/// The built-in procedure `show`. It changes nothing; what it is there to
/// show is had from `VM::current_bindings`.
pub fn shock_show<D: Doubles>(args: Vec<(String, Value)>, vm: &VM<D>) -> (r: Value)
    ensures
        r@ == ValueView::Unit,
{
    Value::Unit
}

/// The built-in procedure `get`.
pub fn shock_get<D: Doubles>(args: Vec<(String, Value)>, vm: &VM<D>) -> (r: Value)
    requires
        vm@.wf(),
    ensures
        r@ == get_model(vm@, values_view(args@)),
{
    if args.len() != 1 {
        return Value::Unit;
    }
    let name = extract_first_argname(&args, 0);
    match vm.lookup_value(name.as_str()) {
        Some(value) => value,
        None => Value::Unit,
    }
}

/// The number that `value` stands for in arithmetic.
pub fn to_number<D: Doubles>(value: &Value, vm: &VM<D>, budget: usize) -> (r: Number)
    requires
        vm@.wf(),
    ensures
        r.wf(),
        r.exact_value() == number_model(vm@, value@, budget as nat),
    decreases budget,
{
    match value {
        Value::Primitive(PrimitiveData::Name(name)) => {
            if budget == 0 {
                return Number::Whole(0);
            }
            match vm.lookup_value(name.as_str()) {
                Some(found) => to_number(&found, vm, budget - 1),
                None => Number::Whole(0),
            }
        },
        Value::Primitive(PrimitiveData::Bool(b)) => Number::Whole(
            if *b {
                1
            } else {
                0
            },
        ),
        Value::Primitive(PrimitiveData::Byte(v)) => Number::Whole(*v as i64),
        Value::Primitive(PrimitiveData::Int(v)) => {
            if 0 - EXACT_LIMIT <= *v && *v <= EXACT_LIMIT {
                Number::Whole(*v)
            } else {
                Number::Bits(vm.doubles.from_int(*v))
            }
        },
        Value::Primitive(PrimitiveData::Float(bits)) => Number::Bits(*bits),
        Value::Path(path) => {
            if budget == 0 {
                return Number::Whole(0);
            }
            match vm.lookup_path(path) {
                Some(found) => to_number(&found, vm, budget - 1),
                None => Number::Whole(0),
            }
        },
        _ => Number::Whole(0),
    }
}

/// The built-in procedures of arithmetic: the integer zero for no argument;
/// else what `operator` makes of the numbers that the arguments stand for,
/// taken pairwise from the left, as an integer where it is whole and as a
/// double where it is not.
pub fn arithmetic<D: Doubles>(
    operator: Operator,
    args: &Vec<(String, Value)>,
    vm: &VM<D>,
    budget: usize,
) -> (r: Value)
    requires
        vm@.wf(),
    ensures
        arithmetic_model(vm@, operator, values_view(args@), budget as nat) matches Some(value)
            ==> r@ == value,
        r@ matches ValueView::Primitive(data) && (data is Int || data is Float),
{
    if args.len() == 0 {
        return Value::Primitive(PrimitiveData::Int(0));
    }
    let mut numbers: Vec<Number> = Vec::new();
    let mut i: usize = 0;
    while i < args.len()
        invariant
            i <= args@.len(),
            vm@.wf(),
            numbers@.len() == i,
            forall|j: int|
                0 <= j < i ==> (#[trigger] numbers@[j]).wf() && numbers@[j].exact_value()
                    == number_model(vm@, args@[j].1@, budget as nat),
        decreases args@.len() - i,
    {
        numbers.push(to_number(&args[i].1, vm, budget));
        i += 1;
    }
    assert(exact_values(numbers@) =~= operands_model(vm@, values_view(args@), budget as nat));
    let result = fold_numbers(operator, &numbers, &vm.doubles);
    Value::Primitive(finish(result, &vm.doubles))
}

/// Applies a built-in procedure to arguments.
pub fn apply_native<D: Doubles>(
    builtin: Builtin,
    args: Vec<(String, Value)>,
    vm: &mut VM<D>,
    budget: usize,
) -> (r: Value)
    requires
        old(vm)@.wf(),
    ensures
        final(vm)@.wf(),
        old(vm)@.extended_by(final(vm)@),
        native_model(old(vm)@, builtin, values_view(args@), budget as nat) matches Some(
            (state, value),
        ) ==> final(vm)@ == state && r@ == value,
{
    match builtin {
        Builtin::Let => {
            proof {
                if args@.len() >= 2 {
                    let values = values_view(args@);
                    lemma_bind_extends(old(vm)@, first_argname(values, 0), values[1].1);
                }
            }
            shock_let(args, vm)
        },
        Builtin::Show => shock_show(args, vm),
        Builtin::Get => shock_get(args, vm),
        Builtin::Add => arithmetic(Operator::Add, &args, vm, budget),
        Builtin::Sub => arithmetic(Operator::Sub, &args, vm, budget),
        Builtin::Mult => arithmetic(Operator::Mult, &args, vm, budget),
        Builtin::Div => arithmetic(Operator::Div, &args, vm, budget),
        Builtin::Modulo => arithmetic(Operator::Modulo, &args, vm, budget),
    }
}

/// The labels of a parameter list.
fn labels_of(parameters: &Vec<(String, ExpressionValue)>) -> (r: Vec<String>)
    ensures
        names_view(r@) == labels(arguments_view(parameters@)),
{
    let mut out: Vec<String> = Vec::new();
    let mut i: usize = 0;
    while i < parameters.len()
        invariant
            i <= parameters@.len(),
            out@.len() == i,
            forall|j: int| 0 <= j < i ==> out@[j]@ == parameters@[j].0@,
        decreases parameters@.len() - i,
    {
        out.push(parameters[i].0.clone());
        i += 1;
    }
    assert(names_view(out@) =~= labels(arguments_view(parameters@)));
    out
}

/// Binds each argument under its label in the current scope.
fn bind_arguments<D: Doubles>(vm: &mut VM<D>, values: &Vec<(String, Value)>)
    requires
        old(vm)@.wf(),
    ensures
        final(vm)@.wf(),
        final(vm)@ == old(vm)@.bind_all(values_view(values@)),
{
    let ghost start = vm@;
    let ghost all = values_view(values@);
    let mut i: usize = 0;
    assert(all.take(0) =~= Seq::empty());
    while i < values.len()
        invariant
            i <= values@.len(),
            all == values_view(values@),
            vm@.wf(),
            vm@ == start.bind_all(all.take(i as int)),
        decreases values@.len() - i,
    {
        proof {
            assert(all.take(i + 1).drop_last() =~= all.take(i as int));
        }
        vm.set_value(values[i].0.as_str(), &values[i].1);
        i += 1;
    }
    assert(all.take(i as int) =~= all);
}

/// Evaluates `expr` with dereferencing.
pub fn eval<D: Doubles>(vm: &mut VM<D>, expr: &ExpressionValue) -> (r: Value)
    requires
        old(vm)@.wf(),
    ensures
        final(vm)@.wf(),
        old(vm)@.extended_by(final(vm)@),
        !(expr@ is Expression) ==> old(vm)@.kept_by(final(vm)@) && forall|name: Seq<char>|
            final(vm)@.lookup(name) == old(vm)@.lookup(name),
        eval_model(old(vm)@, expr@, true, CALL_DEPTH_LIMIT as nat) matches Some((state, value))
            ==> final(vm)@ == state && r@ == value,
{
    eval_impl(vm, expr, true)
}

/// Evaluates `expr` without dereferencing.
pub fn eval_without_dereferencing<D: Doubles>(vm: &mut VM<D>, expr: &ExpressionValue) -> (r: Value)
    requires
        old(vm)@.wf(),
    ensures
        final(vm)@.wf(),
        old(vm)@.extended_by(final(vm)@),
        !(expr@ is Expression) ==> old(vm)@.kept_by(final(vm)@) && forall|name: Seq<char>|
            final(vm)@.lookup(name) == old(vm)@.lookup(name),
        eval_model(old(vm)@, expr@, false, CALL_DEPTH_LIMIT as nat) matches Some((state, value))
            ==> final(vm)@ == state && r@ == value,
{
    eval_impl(vm, expr, false)
}

/// Evaluates `expr`, with closures entered `CALL_DEPTH_LIMIT` deep.
pub fn eval_impl<D: Doubles>(vm: &mut VM<D>, expr: &ExpressionValue, reference_variables: bool)
    -> (r: Value)
    requires
        old(vm)@.wf(),
    ensures
        final(vm)@.wf(),
        old(vm)@.extended_by(final(vm)@),
        !(expr@ is Expression) ==> old(vm)@.kept_by(final(vm)@) && forall|name: Seq<char>|
            final(vm)@.lookup(name) == old(vm)@.lookup(name),
        eval_model(old(vm)@, expr@, reference_variables, CALL_DEPTH_LIMIT as nat) matches Some(
            (state, value),
        ) ==> final(vm)@ == state && r@ == value,
{
    eval_within(vm, expr, reference_variables, CALL_DEPTH_LIMIT)
}

/// Evaluates `expr`, with closures entered `depth` deep.
pub fn eval_within<D: Doubles>(
    vm: &mut VM<D>,
    expr: &ExpressionValue,
    reference_variables: bool,
    depth: usize,
) -> (r: Value)
    requires
        old(vm)@.wf(),
    ensures
        final(vm)@.wf(),
        old(vm)@.extended_by(final(vm)@),
        !(expr@ is Expression) ==> old(vm)@.kept_by(final(vm)@) && forall|name: Seq<char>|
            final(vm)@.lookup(name) == old(vm)@.lookup(name),
        eval_model(old(vm)@, expr@, reference_variables, depth as nat) matches Some(
            (state, value),
        ) ==> final(vm)@ == state && r@ == value,
    decreases depth, expr,
{
    let value = match expr {
        ExpressionValue::Path(path) => {
            if reference_variables {
                match vm.lookup_path(path) {
                    Some(value) => value,
                    None => Value::Unit,
                }
            } else {
                Value::Path(clone_names(path))
            }
        },
        ExpressionValue::Primitive(data) => {
            match data {
                PrimitiveData::Name(name) => {
                    if reference_variables {
                        match vm.lookup_value(name.as_str()) {
                            Some(value) => value,
                            None => Value::Unit,
                        }
                    } else {
                        Value::Primitive(data.clone())
                    }
                },
                _ => Value::Primitive(data.clone()),
            }
        },
        ExpressionValue::Procedure(parameters, body) => Value::Procedure(
            Procedure {
                argnames: labels_of(parameters),
                body: clone_commands(body),
                scope: vm.get_current_scope(),
            },
        ),
        ExpressionValue::Unit => Value::Unit,
        ExpressionValue::Expression(command) => eval_command(vm, command, depth),
        ExpressionValue::Block(commands) => {
            proof {
                lemma_pushed_wf(vm@);
            }
            vm.push_scope();
            let value = eval_body(vm, commands, depth);
            proof {
                lemma_scope_left(old(vm)@, vm@);
            }
            vm.pop_scope();
            value
        },
    };
    proof {
        if !(expr@ is Expression) {
            assert forall|name: Seq<char>| vm@.lookup(name) == old(vm)@.lookup(name) by {
                lemma_kept_lookup_from(old(vm)@, vm@, old(vm)@.current, name);
            }
        }
    }
    value
}

/// Applies `command`, with closures entered `depth` deep.
pub fn eval_command<D: Doubles>(vm: &mut VM<D>, command: &Command, depth: usize) -> (r: Value)
    requires
        old(vm)@.wf(),
    ensures
        final(vm)@.wf(),
        old(vm)@.extended_by(final(vm)@),
        command_model(old(vm)@, command@, depth as nat) matches Some((state, value))
            ==> final(vm)@ == state && r@ == value,
    decreases depth, command,
{
    match vm.lookup_value(command.name.as_str()) {
        Some(Value::NativeProcedure(native)) => {
            let values = eval_arguments(vm, &command.args, false, depth);
            let ghost before = vm@;
            let value = apply_native(native.proc, values, vm, depth);
            proof {
                lemma_extended_transitive(old(vm)@, before, vm@);
            }
            value
        },
        Some(Value::Procedure(closure)) => {
            if depth == 0 {
                return Value::Unit;
            }
            proof {
                lemma_pushed_wf(vm@);
            }
            vm.push_scope();
            let ghost entered = vm@;
            let values = eval_arguments(vm, &command.args, true, depth);
            let ghost evaluated = vm@;
            proof {
                lemma_bind_all_extends(evaluated, values_view(values@));
            }
            bind_arguments(vm, &values);
            let ghost bound = vm@;
            let value = eval_body(vm, &closure.body, depth - 1);
            proof {
                lemma_extended_transitive(entered, evaluated, bound);
                lemma_extended_transitive(entered, bound, vm@);
                lemma_scope_left(old(vm)@, vm@);
            }
            vm.pop_scope();
            value
        },
        _ => Value::Unit,
    }
}

/// Evaluates the arguments of a command, the first one first.
fn eval_arguments<D: Doubles>(
    vm: &mut VM<D>,
    args: &Vec<(String, ExpressionValue)>,
    reference_variables: bool,
    depth: usize,
) -> (r: Vec<(String, Value)>)
    requires
        old(vm)@.wf(),
    ensures
        final(vm)@.wf(),
        old(vm)@.extended_by(final(vm)@),
        arguments_model(old(vm)@, arguments_view(args@), reference_variables, depth as nat)
            matches Some((state, values)) ==> final(vm)@ == state && values_view(r@) == values,
    decreases depth, args,
{
    let ghost start = vm@;
    let ghost all = arguments_view(args@);
    let mut values: Vec<(String, Value)> = Vec::new();
    let mut i: usize = 0;
    assert(all.take(0) =~= Seq::empty());
    assert(values_view(values@) =~= Seq::empty());
    while i < args.len()
        invariant
            i <= args@.len(),
            all == arguments_view(args@),
            start.wf(),
            vm@.wf(),
            start.extended_by(vm@),
            arguments_model(start, all.take(i as int), reference_variables, depth as nat)
                matches Some((state, found)) ==> vm@ == state && values_view(values@) == found,
        decreases args@.len() - i,
    {
        let ghost before = vm@;
        let value = eval_within(vm, &args[i].1, reference_variables, depth);
        let label = args[i].0.clone();
        proof {
            assert(all.take(i + 1).drop_last() =~= all.take(i as int));
            assert(all.take(i + 1).last() == (args@[i as int].0@, args@[i as int].1@));
            lemma_extended_transitive(start, before, vm@);
            assert(values_view(values@.push((label, value))) =~= values_view(values@).push(
                (label@, value@),
            ));
        }
        values.push((label, value));
        i += 1;
    }
    assert(all.take(i as int) =~= all);
    values
}

/// Applies `commands`, the first one first, and returns the result of the
/// last one.
fn eval_body<D: Doubles>(vm: &mut VM<D>, commands: &Vec<Command>, depth: usize) -> (r: Value)
    requires
        old(vm)@.wf(),
    ensures
        final(vm)@.wf(),
        old(vm)@.extended_by(final(vm)@),
        body_model(old(vm)@, commands_view(commands@), depth as nat) matches Some((state, value))
            ==> final(vm)@ == state && r@ == value,
    decreases depth, commands,
{
    let ghost start = vm@;
    let ghost all = commands_view(commands@);
    let mut value = Value::Unit;
    let mut i: usize = 0;
    assert(all.take(0) =~= Seq::empty());
    while i < commands.len()
        invariant
            i <= commands@.len(),
            all == commands_view(commands@),
            start.wf(),
            vm@.wf(),
            start.extended_by(vm@),
            body_model(start, all.take(i as int), depth as nat) matches Some((state, found))
                ==> vm@ == state && value@ == found,
        decreases commands@.len() - i,
    {
        let ghost before = vm@;
        value = eval_command(vm, &commands[i], depth);
        proof {
            assert(all.take(i + 1).drop_last() =~= all.take(i as int));
            assert(all.take(i + 1).last() == commands@[i as int]@);
            lemma_extended_transitive(start, before, vm@);
        }
        i += 1;
    }
    assert(all.take(i as int) =~= all);
    value
}

/// What can be applied to evaluated arguments.
pub trait Applicable<D: Doubles> {
    /// Applies this to `args` in the current scope of `vm`.
    fn apply(&self, args: Vec<(String, Value)>, vm: &mut VM<D>) -> (r: Value)
        requires
            old(vm)@.wf(),
        ensures
            final(vm)@.wf(),
            old(vm)@.extended_by(final(vm)@),
    ;
}

impl<D: Doubles> Applicable<D> for Procedure {
    /// Binds the arguments under their labels in the current scope, and
    /// evaluates the body there.
    fn apply(&self, args: Vec<(String, Value)>, vm: &mut VM<D>) -> (r: Value)
        ensures
            body_model(
                old(vm)@.bind_all(values_view(args@)),
                self@.body,
                CALL_DEPTH_LIMIT as nat,
            ) matches Some((state, value)) ==> final(vm)@ == state && r@ == value,
    {
        proof {
            lemma_bind_all_extends(vm@, values_view(args@));
        }
        bind_arguments(vm, &args);
        let ghost bound = vm@;
        let value = eval_body(vm, &self.body, CALL_DEPTH_LIMIT);
        proof {
            lemma_extended_transitive(old(vm)@, bound, vm@);
        }
        value
    }
}

impl<D: Doubles> Applicable<D> for NativeProcedure {
    /// Applies the built-in procedure.
    fn apply(&self, args: Vec<(String, Value)>, vm: &mut VM<D>) -> (r: Value)
        ensures
            native_model(old(vm)@, self.proc, values_view(args@), CALL_DEPTH_LIMIT as nat)
                matches Some((state, value)) ==> final(vm)@ == state && r@ == value,
    {
        apply_native(self.proc, args, vm, CALL_DEPTH_LIMIT)
    }
}

} // verus!
