//! The environment: what each name stands for, scope within scope.

use crate::error::{eval_result, EvalError, EvalErrorView};
use crate::func_def::clone_names;
use crate::grammar::views;
use crate::statement::{Statement, StatementView};
use crate::val::Val;
use vstd::hash_map::StringHashMap;
use vstd::prelude::*;
use vstd::string::*;

verus! {

/// What a name stands for: a value, or a function.
#[derive(Debug, PartialEq)]
pub enum NamedInfo {
    Binding(Val),
    Func { params: Vec<String>, body: Statement },
}

/// The mathematical value of a [`NamedInfo`].
pub ghost enum NamedInfoView {
    Binding(Val),
    Func { params: Seq<Seq<char>>, body: StatementView },
}

/// What every visible name stands for.
pub type Bindings = Map<Seq<char>, NamedInfoView>;

impl View for NamedInfo {
    type V = NamedInfoView;

    open spec fn view(&self) -> NamedInfoView {
        match self {
            NamedInfo::Binding(val) => NamedInfoView::Binding(*val),
            NamedInfo::Func { params, body } => NamedInfoView::Func {
                params: views(params@),
                body: body@,
            },
        }
    }
}

impl Clone for NamedInfo {
    fn clone(&self) -> (copy: Self)
        ensures
            copy@ == self@,
    {
        match self {
            NamedInfo::Binding(val) => NamedInfo::Binding(*val),
            NamedInfo::Func { params, body } => NamedInfo::Func {
                params: clone_names(params),
                body: body.clone(),
            },
        }
    }
}

impl NamedInfo {
    /// The value, where this is a binding.
    pub fn into_binding(self) -> (val: Option<Val>)
        ensures
            val == binding_of(Some(self@)),
    {
        if let NamedInfo::Binding(val) = self {
            Some(val)
        } else {
            None
        }
    }

    /// The parameters and the body, where this is a function.
    pub fn into_func(self) -> (func: Option<(Vec<String>, Statement)>)
        ensures
            func_view(func) == func_of(Some(self@)),
    {
        if let NamedInfo::Func { params, body } = self {
            Some((params, body))
        } else {
            None
        }
    }
}

/// The value that `info` holds, where it is there and is a binding.
pub open spec fn binding_of(info: Option<NamedInfoView>) -> Option<Val> {
    match info {
        Some(NamedInfoView::Binding(val)) => Some(val),
        _ => None,
    }
}

/// The parameters and the body that `info` holds, where it is there and is a
/// function.
pub open spec fn func_of(info: Option<NamedInfoView>) -> Option<(Seq<Seq<char>>, StatementView)> {
    match info {
        Some(NamedInfoView::Func { params, body }) => Some((params, body)),
        _ => None,
    }
}

/// The mathematical value of the parameters and the body of a function.
pub open spec fn func_view(func: Option<(Vec<String>, Statement)>) -> Option<
    (Seq<Seq<char>>, StatementView),
> {
    match func {
        Some((params, body)) => Some((views(params@), body@)),
        None => None,
    }
}

/// What `name` stands for in `env`, if anything.
pub open spec fn lookup(env: Bindings, name: Seq<char>) -> Option<NamedInfoView> {
    if env.contains_key(name) {
        Some(env[name])
    } else {
        None
    }
}

/// The value of the binding `name` in `env`; `UndefinedBinding` where `name`
/// stands for nothing or for a function.
pub open spec fn binding(env: Bindings, name: Seq<char>) -> Result<Val, EvalErrorView> {
    match binding_of(lookup(env, name)) {
        Some(val) => Ok(val),
        None => Err(EvalErrorView::UndefinedBinding(name)),
    }
}

/// The parameters and the body of the function `name` in `env`;
/// `UndefinedFunction` where `name` stands for nothing or for a value.
pub open spec fn func(env: Bindings, name: Seq<char>) -> Result<
    (Seq<Seq<char>>, StatementView),
    EvalErrorView,
> {
    match func_of(lookup(env, name)) {
        Some(found) => Ok(found),
        None => Err(EvalErrorView::UndefinedFunction(name)),
    }
}

/// A scope: the names defined in it, and the scope around it, if any. A name
/// defined here hides the same name in the scopes around, which stay as they
/// are.
pub struct Env<'parent> {
    named: StringHashMap<NamedInfo>,
    parent: Option<&'parent Env<'parent>>,
}

impl<'parent> Env<'parent> {
    /// What the names defined in this scope itself stand for.
    pub closed spec fn own(&self) -> Bindings {
        self.named@.map_values(|info: NamedInfo| info@)
    }

    /// The scope around this one, if any.
    pub closed spec fn parent(&self) -> Option<&'parent Env<'parent>> {
        self.parent
    }

    /// What every name visible in this scope stands for: the names of the
    /// scope around it, but for those that this scope defines itself.
    pub open spec fn bindings(&self) -> Bindings
        decreases self,
    {
        match self.parent() {
            None => self.own(),
            Some(parent) => parent.bindings().union_prefer_right(self.own()),
        }
    }

    /// Whether this scope or a scope around it defines `name`.
    pub open spec fn defines_somewhere(&self, name: Seq<char>) -> bool
        decreases self,
    {
        self.own().contains_key(name) || match self.parent() {
            Some(parent) => parent.defines_somewhere(name),
            None => false,
        }
    }

    /// A name that this scope defines stands for what this scope says, and
    /// any other name for what it stands for in the scope around this one.
    pub proof fn lemma_lookup_walks_outward(&self, name: Seq<char>)
        ensures
            lookup(self@, name) == (if self.own().contains_key(name) {
                Some(self.own()[name])
            } else {
                match self.parent() {
                    Some(parent) => lookup(parent@, name),
                    None => None,
                }
            }),
    {
    }

    /// The names that stand for something are those that some scope from
    /// this one outwards defines.
    pub proof fn lemma_visible_names(&self, name: Seq<char>)
        ensures
            self@.contains_key(name) == self.defines_somewhere(name),
        decreases self,
    {
        if let Some(parent) = self.parent() {
            parent.lemma_visible_names(name);
        }
    }

    /// A name that no scope from this one outwards defines is bound to no
    /// value and to no function: looking it up fails, and the failure holds
    /// the name.
    pub proof fn lemma_undefined_everywhere(&self, name: Seq<char>)
        requires
            !self.defines_somewhere(name),
        ensures
            binding(self@, name) == Err::<Val, EvalErrorView>(
                EvalErrorView::UndefinedBinding(name),
            ),
            func(self@, name) == Err::<(Seq<Seq<char>>, StatementView), EvalErrorView>(
                EvalErrorView::UndefinedFunction(name),
            ),
    {
        self.lemma_visible_names(name);
    }

    /// A scope inside this one, in which nothing is defined yet.
    pub fn create_child(&'parent self) -> (child: Self)
        ensures
            child.own() == Bindings::empty(),
            child.parent() == Some(self),
            child@ == self@,
    {
        let child = Env { named: StringHashMap::new(), parent: Some(self) };
        assert(child.own() =~= Bindings::empty());
        assert(child.bindings() =~= self.bindings());
        child
    }

    /// Binds `name` to `val` in this scope; an earlier definition of `name`
    /// in this scope is replaced.
    pub fn store_binding(&mut self, name: String, val: Val)
        ensures
            final(self).own() == old(self).own().insert(name@, NamedInfoView::Binding(val)),
            final(self).parent() == old(self).parent(),
            final(self)@ == old(self)@.insert(name@, NamedInfoView::Binding(val)),
    {
        let ghost info = NamedInfo::Binding(val);
        self.named.insert(name, NamedInfo::Binding(val));
        assert(self.own() =~= old(self).own().insert(name@, info@));
        assert(self.bindings() =~= old(self).bindings().insert(name@, info@));
    }

    /// Binds `name` to the function with these parameters and this body in
    /// this scope; an earlier definition of `name` in this scope is replaced.
    pub fn store_func(&mut self, name: String, params: Vec<String>, body: Statement)
        ensures
            final(self).own() == old(self).own().insert(
                name@,
                NamedInfoView::Func { params: views(params@), body: body@ },
            ),
            final(self).parent() == old(self).parent(),
            final(self)@ == old(self)@.insert(
                name@,
                NamedInfoView::Func { params: views(params@), body: body@ },
            ),
    {
        let ghost info = NamedInfoView::Func { params: views(params@), body: body@ };
        self.named.insert(name, NamedInfo::Func { params, body });
        assert(self.own() =~= old(self).own().insert(name@, info));
        assert(self.bindings() =~= old(self).bindings().insert(name@, info));
    }

    /// The value that `name` is bound to in this scope or, failing that, in
    /// the nearest scope around it that defines `name`. Fails with
    /// `UndefinedBinding` where no scope defines `name`, or the nearest that
    /// does defines a function.
    pub fn get_binding(&self, name: &str) -> (r: Result<Val, EvalError>)
        ensures
            eval_result(r) == binding(self@, name@),
    {
        match self.get_named_info(name) {
            Some(info) => match info.into_binding() {
                Some(val) => Ok(val),
                None => Err(EvalError::UndefinedBinding(name.to_string())),
            },
            None => Err(EvalError::UndefinedBinding(name.to_string())),
        }
    }

    /// The parameters and the body of the function that `name` is bound to
    /// in this scope or, failing that, in the nearest scope around it that
    /// defines `name`. Fails with `UndefinedFunction` where no scope defines
    /// `name`, or the nearest that does defines a value.
    pub fn get_func(&self, name: &str) -> (r: Result<(Vec<String>, Statement), EvalError>)
        ensures
            match r {
                Ok((params, body)) => func(self@, name@) == Ok::<_, EvalErrorView>(
                    (views(params@), body@),
                ),
                Err(e) => func(self@, name@) == Err::<(Seq<Seq<char>>, StatementView), _>(e@),
            },
    {
        match self.get_named_info(name) {
            Some(info) => match info.into_func() {
                Some(found) => Ok(found),
                None => Err(EvalError::UndefinedFunction(name.to_string())),
            },
            None => Err(EvalError::UndefinedFunction(name.to_string())),
        }
    }

    /// What `name` stands for in this scope or, failing that, in the nearest
    /// scope around it that defines `name`.
    pub fn get_named_info(&self, name: &str) -> (info: Option<NamedInfo>)
        ensures
            match info {
                Some(found) => lookup(self@, name@) == Some(found@),
                None => lookup(self@, name@) is None,
            },
        decreases self,
    {
        match self.named.get(name) {
            Some(info) => Some(info.clone()),
            None => match self.parent {
                Some(parent) => parent.get_named_info(name),
                None => None,
            },
        }
    }
}

impl<'parent> View for Env<'parent> {
    type V = Bindings;

    open spec fn view(&self) -> Bindings {
        self.bindings()
    }
}

impl<'parent> Default for Env<'parent> {
    /// The outermost scope, in which nothing is defined yet.
    fn default() -> (env: Self)
        ensures
            env.own() == Bindings::empty(),
            env.parent() is None,
            env@ == Bindings::empty(),
    {
        let env = Env { named: StringHashMap::new(), parent: None };
        assert(env.own() =~= Bindings::empty());
        env
    }
}

} // verus!
