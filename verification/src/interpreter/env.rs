//! The runtime environment: the variables of the current call and the
//! functions of the program.

use vstd::prelude::*;
use std::rc::Rc;
use crate::ast::tree::{functions_model, Function, SpecFunction, TypeBound};
use crate::interpreter::error::{Error, SpecError};
use crate::interpreter::value::{type_of_value, RunValue, Value};
use crate::table::Table;

verus! {

/// The model of an [`Env`]: each variable with whether it can be assigned
/// to and its value, and each function by its name.
pub ghost struct SpecEnv {
    pub vars: Map<Seq<char>, (bool, RunValue)>,
    pub funcs: Map<Seq<char>, SpecFunction>,
}

/// The environment with the functions of `funcs` from index `i` on, each
/// under its name in place of what the name stood for.
pub open spec fn with_funcs(env: SpecEnv, funcs: Seq<SpecFunction>, i: int) -> SpecEnv
    decreases funcs.len() - i,
{
    if !(0 <= i < funcs.len()) {
        env
    } else {
        with_funcs(
            SpecEnv { vars: env.vars, funcs: env.funcs.insert(funcs[i].name, funcs[i]) },
            funcs,
            i + 1,
        )
    }
}

/// The environment without variables or functions.
pub open spec fn empty_env() -> SpecEnv {
    SpecEnv { vars: Map::empty(), funcs: Map::empty() }
}

/// The environment of a new call: the same functions, no variables.
pub open spec fn call_env(env: SpecEnv) -> SpecEnv {
    SpecEnv { vars: Map::empty(), funcs: env.funcs }
}

/// The value of a name: that of the variable, or else the function of
/// that name.
pub open spec fn lookup(env: SpecEnv, name: Seq<char>) -> Result<RunValue, SpecError> {
    if env.vars.contains_key(name) {
        Ok(env.vars[name].1)
    } else if env.funcs.contains_key(name) {
        Ok(RunValue::Function(env.funcs[name]))
    } else {
        Err(SpecError::UndefinedVariable(name))
    }
}

/// The environment after `value` is assigned to the variable `name`,
/// which must be bound, hold a value of the same type, and be assignable.
pub open spec fn assign(env: SpecEnv, name: Seq<char>, value: RunValue) -> Result<
    SpecEnv,
    SpecError,
> {
    if !env.vars.contains_key(name) {
        Err(SpecError::UndefinedVariable(name))
    } else if type_of_value(env.vars[name].1) != type_of_value(value) {
        Err(SpecError::UnexpectedType(type_of_value(env.vars[name].1), type_of_value(value)))
    } else if !env.vars[name].0 {
        Err(SpecError::ImmutableVariable(name))
    } else {
        Ok(SpecEnv { vars: env.vars.insert(name, (true, value)), funcs: env.funcs })
    }
}

/// The environment after `name` is bound to `value`.
pub open spec fn bind(env: SpecEnv, name: Seq<char>, value: RunValue, mutable: bool) -> SpecEnv {
    SpecEnv { vars: env.vars.insert(name, (mutable, value)), funcs: env.funcs }
}

/// A runtime environment: the variables of one call, and the functions
/// of the program, which every call shares.
#[verifier::reject_recursive_types(T)]
pub struct Env<T: TypeBound> {
    vars: Table<(bool, Value<T>)>,
    funcs: Rc<Table<Function<T>>>,
}

impl<T: TypeBound> View for Env<T> {
    type V = SpecEnv;

    closed spec fn view(&self) -> SpecEnv {
        SpecEnv { vars: self.vars@, funcs: self.funcs@ }
    }
}

impl<T: TypeBound> Env<T> {
    /// The environment without variables or functions.
    pub fn new() -> (r: Env<T>)
        ensures
            r@ == empty_env(),
    {
        Env { vars: Table::new(), funcs: Rc::new(Table::new()) }
    }

    /// The environment of a program: its functions, each under its name,
    /// a later one in place of an earlier one of the same name.
    pub fn from_funcs(funcs: Vec<Function<T>>) -> (r: Env<T>)
        ensures
            r@ == with_funcs(empty_env(), functions_model(funcs), 0),
    {
        let mut named: Table<Function<T>> = Table::new();
        let ghost all = functions_model(funcs);
        let mut i: usize = 0;
        while i < funcs.len()
            invariant
                0 <= i <= funcs.len(),
                all == functions_model(funcs),
                with_funcs(SpecEnv { vars: Map::empty(), funcs: named@ }, all, i as int)
                    == with_funcs(empty_env(), all, 0),
            decreases funcs.len() - i,
        {
            assert(all[i as int] == funcs@[i as int]@);
            named.insert(funcs[i].name.clone(), funcs[i].duplicate());
            i += 1;
        }
        Env { vars: Table::new(), funcs: Rc::new(named) }
    }

    /// The environment of a new call: the same functions, no variables.
    pub fn call(&self) -> (r: Env<T>)
        ensures
            r@ == call_env(self@),
    {
        Env { vars: Table::new(), funcs: Rc::clone(&self.funcs) }
    }

    /// Assigns `value` to the variable `name` and gives the value back.
    pub fn update(&mut self, name: &String, value: Value<T>) -> (r: Result<Value<T>, Error>)
        ensures
            match assign(old(self)@, name@, value@) {
                Ok(env) => r matches Ok(v) && v@ == value@ && final(self)@ == env,
                Err(e) => r matches Err(x) && x@ == e && final(self)@ == old(self)@,
            },
    {
        match self.vars.get(name) {
            Some(entry) => {
                let held = entry.1.type_of();
                let given = value.type_of();
                if !held.equals(&given) {
                    Err(Error::UnexpectedType(held, given))
                } else if !entry.0 {
                    Err(Error::ImmutableVariable(name.clone()))
                } else {
                    self.vars.insert(name.clone(), (true, value.duplicate()));
                    Ok(value)
                }
            },
            None => Err(Error::UndefinedVariable(name.clone())),
        }
    }

    /// The value of a name: that of the variable, or else the function of
    /// that name.
    pub fn get(&self, name: &String) -> (r: Result<Value<T>, Error>)
        ensures
            match lookup(self@, name@) {
                Ok(v) => r matches Ok(x) && x@ == v,
                Err(e) => r matches Err(x) && x@ == e,
            },
    {
        match self.vars.get(name) {
            Some(entry) => Ok(entry.1.duplicate()),
            None => match self.funcs.get(name) {
                Some(func) => Ok(Value::Function(func.duplicate())),
                None => Err(Error::UndefinedVariable(name.clone())),
            },
        }
    }

    /// Binds `name` to `value`, in place of what it was bound to.
    pub fn insert(&mut self, name: &str, value: Value<T>, mutable: bool)
        ensures
            final(self)@ == bind(old(self)@, name@, value@, mutable),
    {
        self.vars.insert(name.to_owned(), (mutable, value));
    }
}

} // verus!
