//! Assignment. `set <target> [=] <source>` writes to a variable that
//! exists; the source is a literal, the address of another variable, or
//! `eval` and an expression. The kind of a variable never changes: what is
//! written has the kind that the variable has.

use vstd::prelude::*;
use crate::address::{Address, AddressView, LocalAddress, LocalAddressView};
use crate::entity::storage::{Key, Storage};
use crate::machine::cmd::eval::{expr_of_text, expr_value, Expr, ExprView};
use crate::machine::cmd::flow::{error_result, fail};
use crate::machine::cmd::get_set::ExtSetVar;
use crate::machine::cmd::{Command, CommandResult, ExtCommand};
use crate::machine::error::{
    is_body_error, is_missing_error, is_other_error, is_parse_error, ErrorKind, ErrorKindView,
    Result,
};
use crate::machine::{LocationInfo, Registry};
use crate::string::{clone_opt, fits, StringId};
use crate::address::self_text;
use crate::text::{
    chars_eq, chars_of, joined_with, join_from, parse_int, parse_nat, parse_signed,
    parse_unsigned, rows, split, split_spec, str_eq, string_of, texts,
};
use crate::var::{bool_text, var_type_of_text, Var, VarType, VarView};

verus! {

/// What an assignment writes to or reads from: a variable by its name,
/// with its kind, its component and its entity where they are given.
#[derive(Debug, PartialEq)]
pub struct SetTarget {
    pub entity: Option<StringId>,
    pub comp: Option<StringId>,
    pub var_type: Option<VarType>,
    pub var_id: StringId,
}

/// The mathematical content of a `SetTarget`.
pub struct SetTargetView {
    pub entity: Option<Seq<char>>,
    pub comp: Option<Seq<char>>,
    pub var_type: Option<VarType>,
    pub var_id: Seq<char>,
}

/// The text of an optional name.
pub open spec fn opt_text(id: Option<StringId>) -> Option<Seq<char>> {
    match id {
        Some(x) => Some(x@),
        None => None,
    }
}

impl View for SetTarget {
    type V = SetTargetView;

    open spec fn view(&self) -> SetTargetView {
        SetTargetView {
            entity: opt_text(self.entity),
            comp: opt_text(self.comp),
            var_type: self.var_type,
            var_id: self.var_id@,
        }
    }
}

impl Clone for SetTarget {
    fn clone(&self) -> (r: Self)
        ensures
            r == *self,
    {
        SetTarget {
            entity: clone_opt(&self.entity),
            comp: clone_opt(&self.comp),
            var_type: self.var_type,
            var_id: self.var_id.clone(),
        }
    }
}

/// The target that a text writes: `name`, `kind:name`,
/// `component:kind:name` or `entity:component:kind:name`, where every name
/// is short enough for a `StringId`. The entity `self` is the one at hand
/// and is left out.
pub open spec fn target_of_text(s: Seq<char>) -> Option<SetTargetView> {
    let parts = split_spec(s, ':');
    if parts.len() == 1 {
        if fits(parts[0]) {
            Some(SetTargetView { entity: None, comp: None, var_type: None, var_id: parts[0] })
        } else {
            None
        }
    } else if parts.len() == 2 {
        if fits(parts[1]) && var_type_of_text(parts[0]) is Some {
            Some(
                SetTargetView {
                    entity: None,
                    comp: None,
                    var_type: var_type_of_text(parts[0]),
                    var_id: parts[1],
                },
            )
        } else {
            None
        }
    } else if parts.len() == 3 {
        if fits(parts[0]) && fits(parts[2]) && var_type_of_text(parts[1]) is Some {
            Some(
                SetTargetView {
                    entity: None,
                    comp: Some(parts[0]),
                    var_type: var_type_of_text(parts[1]),
                    var_id: parts[2],
                },
            )
        } else {
            None
        }
    } else if parts.len() == 4 {
        if fits(parts[0]) && fits(parts[1]) && fits(parts[3]) && var_type_of_text(parts[2])
            is Some {
            Some(
                SetTargetView {
                    entity: if parts[0] == self_text() {
                        None
                    } else {
                        Some(parts[0])
                    },
                    comp: Some(parts[1]),
                    var_type: var_type_of_text(parts[2]),
                    var_id: parts[3],
                },
            )
        } else {
            None
        }
    } else {
        None
    }
}

impl SetTargetView {
    /// The target as text: the parts that are given, separated by colons.
    pub open spec fn text(self) -> Seq<char> {
        (match self.entity {
            Some(e) => e + seq![':'],
            None => Seq::empty(),
        }) + (match self.comp {
            Some(c) => c + seq![':'],
            None => Seq::empty(),
        }) + (match self.var_type {
            Some(t) => crate::var::var_type_text(t) + seq![':'],
            None => Seq::empty(),
        }) + self.var_id
    }

    /// The key of the variable in the store of its entity, with `comp` for
    /// a component that is left out.
    pub open spec fn key(self, comp: Seq<char>) -> (Seq<char>, Seq<char>) {
        match self.comp {
            Some(c) => (c, self.var_id),
            None => (comp, self.var_id),
        }
    }
}

impl SetTarget {
    /// Reads a target.
    pub fn from_chars(s: &Vec<char>) -> (r: Option<SetTarget>)
        ensures
            match r {
                Some(t) => target_of_text(s@) == Some(t@),
                None => target_of_text(s@) is None,
            },
    {
        let parts = split(s, ':');
        proof {
            assert(rows(parts@) == split_spec(s@, ':'));
            assert(forall|i: int| 0 <= i < parts.len() ==> rows(parts@)[i] == parts@[i]@);
        }
        if parts.len() == 1 {
            match StringId::from_chars(&parts[0]) {
                Some(var_id) => Some(SetTarget { entity: None, comp: None, var_type: None, var_id }),
                None => None,
            }
        } else if parts.len() == 2 {
            match (VarType::from_chars(&parts[0]), StringId::from_chars(&parts[1])) {
                (Some(t), Some(var_id)) => Some(
                    SetTarget { entity: None, comp: None, var_type: Some(t), var_id },
                ),
                _ => None,
            }
        } else if parts.len() == 3 {
            match (
                StringId::from_chars(&parts[0]),
                VarType::from_chars(&parts[1]),
                StringId::from_chars(&parts[2]),
            ) {
                (Some(c), Some(t), Some(var_id)) => Some(
                    SetTarget { entity: None, comp: Some(c), var_type: Some(t), var_id },
                ),
                _ => None,
            }
        } else if parts.len() == 4 {
            let own = crate::address::self_name().to_chars();
            let is_own = chars_eq(&parts[0], &own);
            match (
                StringId::from_chars(&parts[0]),
                StringId::from_chars(&parts[1]),
                VarType::from_chars(&parts[2]),
                StringId::from_chars(&parts[3]),
            ) {
                (Some(e), Some(c), Some(t), Some(var_id)) => Some(
                    SetTarget {
                        entity: if is_own {
                            None
                        } else {
                            Some(e)
                        },
                        comp: Some(c),
                        var_type: Some(t),
                        var_id,
                    },
                ),
                _ => None,
            }
        } else {
            None
        }
    }

    /// The target as text.
    pub fn to_string(&self) -> (r: String)
        ensures
            r@ == self@.text(),
    {
        let mut out: Vec<char> = Vec::new();
        match &self.entity {
            Some(e) => {
                crate::text::push_all(&mut out, &e.to_chars());
                out.push(':');
            },
            None => {},
        }
        match &self.comp {
            Some(c) => {
                crate::text::push_all(&mut out, &c.to_chars());
                out.push(':');
            },
            None => {},
        }
        match &self.var_type {
            Some(t) => {
                crate::text::push_all(&mut out, &t.to_chars());
                out.push(':');
            },
            None => {},
        }
        crate::text::push_all(&mut out, &self.var_id.to_chars());
        proof {
            assert(out@ =~= self@.text());
        }
        string_of(&out)
    }

    /// The key of the variable, with `comp` for a component left out.
    pub fn key(&self, comp: &StringId) -> (r: (StringId, StringId))
        ensures
            crate::address::index_view(r) == self@.key(comp@),
    {
        match &self.comp {
            Some(c) => (c.clone(), self.var_id.clone()),
            None => (comp.clone(), self.var_id.clone()),
        }
    }
}

/// The value of a kind that a literal writes: text for itself, an integer
/// or a byte in decimal, a truth value as `true` or `false`. Floating
/// point numbers and lists have no literals.
pub open spec fn var_of_literal(kind: VarType, s: Seq<char>) -> Option<VarView> {
    match kind {
        VarType::Str => Some(VarView::Str(s)),
        VarType::Int => match parse_int(s) {
            Some(v) => if i64::MIN <= v <= i64::MAX {
                Some(VarView::Int(v as i64))
            } else {
                None
            },
            None => None,
        },
        VarType::Bool => if s == bool_text(true) {
            Some(VarView::Bool(true))
        } else if s == bool_text(false) {
            Some(VarView::Bool(false))
        } else {
            None
        },
        VarType::Byte => match parse_nat(s) {
            Some(v) => if v <= 255 {
                Some(VarView::Byte(v as u8))
            } else {
                None
            },
            None => None,
        },
        _ => None,
    }
}

/// Reads a literal as a value of the given kind.
pub fn var_from_literal(kind: VarType, s: &Vec<char>) -> (r: Option<Var>)
    ensures
        match r {
            Some(v) => var_of_literal(kind, s@) == Some(v@),
            None => var_of_literal(kind, s@) is None,
        },
{
    match kind {
        VarType::Str => Some(Var::Str(string_of(s))),
        VarType::Int => match parse_signed(s) {
            Some(v) => Some(Var::Int(v)),
            None => None,
        },
        VarType::Bool => {
            let yes = vec!['t', 'r', 'u', 'e'];
            let no = vec!['f', 'a', 'l', 's', 'e'];
            proof {
                assert(yes@ =~= bool_text(true));
                assert(no@ =~= bool_text(false));
            }
            if chars_eq(s, &yes) {
                Some(Var::Bool(true))
            } else if chars_eq(s, &no) {
                Some(Var::Bool(false))
            } else {
                None
            }
        },
        VarType::Byte => match parse_unsigned(s, 255) {
            Some(v) => Some(Var::Byte(v as u8)),
            None => None,
        },
        _ => None,
    }
}

/// Where an assignment takes its value from.
#[derive(Debug, PartialEq)]
pub enum SetSource {
    Literal(String),
    Addr(SetTarget),
    Eval(Expr),
}

/// The mathematical content of a `SetSource`.
pub enum SetSourceView {
    Literal(Seq<char>),
    Addr(SetTargetView),
    Eval(ExprView),
}

impl View for SetSource {
    type V = SetSourceView;

    open spec fn view(&self) -> SetSourceView {
        match self {
            SetSource::Literal(s) => SetSourceView::Literal(s@),
            SetSource::Addr(a) => SetSourceView::Addr(a@),
            SetSource::Eval(e) => SetSourceView::Eval(e@),
        }
    }
}

impl Clone for SetSource {
    fn clone(&self) -> (r: Self)
        ensures
            r@ == self@,
    {
        match self {
            SetSource::Literal(s) => SetSource::Literal(s.clone()),
            SetSource::Addr(a) => SetSource::Addr(a.clone()),
            SetSource::Eval(e) => SetSource::Eval(e.clone()),
        }
    }
}

/// `set`: writes a value to a variable.
#[derive(Debug, PartialEq)]
pub struct Assign {
    pub target: SetTarget,
    pub source: SetSource,
}

/// The mathematical content of an `Assign`.
pub struct AssignView {
    pub target: SetTargetView,
    pub source: SetSourceView,
}

impl View for Assign {
    type V = AssignView;

    open spec fn view(&self) -> AssignView {
        AssignView { target: self.target@, source: self.source@ }
    }
}

impl Clone for Assign {
    fn clone(&self) -> (r: Self)
        ensures
            r@ == self@,
    {
        Assign { target: self.target.clone(), source: self.source.clone() }
    }
}

/// `set` between two integer variables of the entity at hand.
#[derive(Debug, PartialEq)]
pub struct SetIntIntAddr {
    pub target: LocalAddress,
    pub source: LocalAddress,
}

impl Clone for SetIntIntAddr {
    fn clone(&self) -> (r: Self)
        ensures
            r == *self,
    {
        SetIntIntAddr { target: self.target.clone(), source: self.source.clone() }
    }
}

/// What the arguments of `set` write.
pub enum SetParse {
    /// The general assignment.
    Plain(AssignView),
    /// From one integer variable of the entity to another.
    IntInt(LocalAddressView, LocalAddressView),
    /// Fewer than two arguments, or nothing behind `=`.
    NoBody,
    /// The first argument writes no target.
    NoTarget,
    /// What follows `eval` writes no expression.
    NoExpr,
}

/// Position of the first argument of the source: behind an `=`, if the
/// second argument is one.
pub open spec fn source_at(args: Seq<Seq<char>>) -> int {
    if args.len() >= 2 && args[1] == "="@ {
        2
    } else {
        1
    }
}

/// Whether a target names an integer variable of the entity at hand.
pub open spec fn local_int(t: SetTargetView) -> bool {
    t.entity is None && t.var_type == Some(VarType::Int)
}

/// The local address of a target.
pub open spec fn as_local(t: SetTargetView) -> LocalAddressView {
    LocalAddressView { comp: t.comp, var_type: VarType::Int, var_id: t.var_id }
}

/// What the arguments of `set` write: a target, an optional `=`, and then
/// either `eval` and an expression, whose pieces are taken together, or
/// one address with its kind, or a literal, whose pieces are taken
/// together with one space between neighbours.
pub open spec fn set_parse(args: Seq<Seq<char>>) -> SetParse {
    let at = source_at(args);
    if args.len() < 2 || at >= args.len() {
        SetParse::NoBody
    } else {
        match target_of_text(args[0]) {
            None => SetParse::NoTarget,
            Some(target) => {
                if args[at] == "eval"@ {
                    match expr_of_text(joined_with(args.skip(at + 1), Seq::empty())) {
                        Some(e) => SetParse::Plain(
                            AssignView { target, source: SetSourceView::Eval(e) },
                        ),
                        None => SetParse::NoExpr,
                    }
                } else if args.len() == at + 1 && (target_of_text(args[at]) matches Some(src)
                    && src.var_type is Some) {
                    let src = target_of_text(args[at])->0;
                    if local_int(target) && local_int(src) {
                        SetParse::IntInt(as_local(target), as_local(src))
                    } else {
                        SetParse::Plain(AssignView { target, source: SetSourceView::Addr(src) })
                    }
                } else {
                    SetParse::Plain(
                        AssignView {
                            target,
                            source: SetSourceView::Literal(joined_with(args.skip(at), seq![' '])),
                        },
                    )
                }
            },
        }
    }
}

impl Assign {
    /// What `new` returns for given arguments.
    pub open spec fn built(args: Seq<String>, location: LocationInfo, r: Result<Command>) -> bool {
        match set_parse(texts(args)) {
            SetParse::Plain(v) => r matches Ok(Command::Assign(c)) && c@ == v,
            SetParse::IntInt(t, s) => r matches Ok(Command::SetIntIntAddr(c)) && c.target@ == t
                && c.source@ == s,
            SetParse::NoBody => r matches Err(e) && is_body_error(
                e,
                location,
                "a target and a source are expected"@,
            ),
            SetParse::NoTarget => r matches Err(e) && is_parse_error(e, location, args[0]@),
            SetParse::NoExpr => r matches Err(e) && is_parse_error(
                e,
                location,
                "an expression is expected"@,
            ),
        }
    }

    /// Builds the assignment that the arguments write.
    pub fn new(args: Vec<String>, location: &LocationInfo) -> (r: Result<Command>)
        ensures
            Assign::built(args@, *location, r),
    {
        if args.len() < 2 {
            return fail(location, ErrorKind::InvalidCommandBody("a target and a source are expected".to_owned()));
        }
        let at: usize = if str_eq(args[1].as_str(), "=") {
            2
        } else {
            1
        };
        if at >= args.len() {
            return fail(location, ErrorKind::InvalidCommandBody("a target and a source are expected".to_owned()));
        }
        let target = match SetTarget::from_chars(&chars_of(args[0].as_str())) {
            Some(t) => t,
            None => {
                return fail(location, ErrorKind::ParseError(args[0].clone()));
            },
        };
        if str_eq(args[at].as_str(), "eval") {
            let none: Vec<char> = Vec::new();
            let text = join_from(&args, at + 1, &none);
            return match Expr::from_chars(&text) {
                Some(e) => Ok(Command::Assign(Assign { target, source: SetSource::Eval(e) })),
                None => fail(location, ErrorKind::ParseError("an expression is expected".to_owned())),
            };
        }
        if args.len() == at + 1 {
            match SetTarget::from_chars(&chars_of(args[at].as_str())) {
                Some(src) => {
                    if src.var_type.is_some() {
                        let both = target.entity.is_none() && src.entity.is_none() && is_int(
                            &target.var_type,
                        ) && is_int(&src.var_type);
                        if both {
                            return Ok(
                                Command::SetIntIntAddr(
                                    SetIntIntAddr {
                                        target: LocalAddress {
                                            comp: target.comp,
                                            var_type: VarType::Int,
                                            var_id: target.var_id,
                                        },
                                        source: LocalAddress {
                                            comp: src.comp,
                                            var_type: VarType::Int,
                                            var_id: src.var_id,
                                        },
                                    },
                                ),
                            );
                        }
                        return Ok(Command::Assign(Assign { target, source: SetSource::Addr(src) }));
                    }
                },
                None => {},
            }
        }
        let space = vec![' '];
        proof {
            assert(space@ =~= seq![' ']);
        }
        let text = join_from(&args, at, &space);
        Ok(Command::Assign(Assign { target, source: SetSource::Literal(string_of(&text)) }))
    }
}

fn is_int(t: &Option<VarType>) -> (r: bool)
    ensures
        r == (*t == Some(VarType::Int)),
{
    match t {
        Some(VarType::Int) => true,
        _ => false,
    }
}

/// `eval <target> <expression>`: writes the value of an expression to a
/// variable of the component or, where the component has no variable of
/// that name, to a scratch variable.
#[derive(Debug, PartialEq)]
pub struct Eval {
    pub target: SetTarget,
    pub expr: Expr,
}

/// The mathematical content of an `Eval`.
pub struct EvalView {
    pub target: SetTargetView,
    pub expr: ExprView,
}

impl View for Eval {
    type V = EvalView;

    open spec fn view(&self) -> EvalView {
        EvalView { target: self.target@, expr: self.expr@ }
    }
}

impl Clone for Eval {
    fn clone(&self) -> (r: Self)
        ensures
            r@ == self@,
    {
        Eval { target: self.target.clone(), expr: self.expr.clone() }
    }
}

/// What the arguments of `eval` write, if they write a target and an
/// expression.
pub open spec fn eval_parse(args: Seq<Seq<char>>) -> Option<EvalView> {
    if args.len() < 2 {
        None
    } else {
        match (target_of_text(args[0]), expr_of_text(joined_with(args.skip(1), Seq::empty()))) {
            (Some(target), Some(expr)) => Some(EvalView { target, expr }),
            _ => None,
        }
    }
}

impl Eval {
    /// What `new` returns for given arguments.
    pub open spec fn built(args: Seq<String>, r: Result<Command>) -> bool {
        match eval_parse(texts(args)) {
            Some(v) => r matches Ok(Command::Eval(c)) && c@ == v,
            None => r matches Err(e) && (if args.len() < 2 {
                is_body_error(
                    e,
                    LocationInfo { comp_name: None, line: None },
                    "a target and an expression are expected"@,
                )
            } else {
                is_parse_error(
                    e,
                    LocationInfo { comp_name: None, line: None },
                    "a target and an expression are expected"@,
                )
            }),
        }
    }

    /// Builds the command from a target and the pieces of an expression.
    pub fn new(args: Vec<String>) -> (r: Result<Command>)
        ensures
            Eval::built(args@, r),
    {
        let location = LocationInfo::empty();
        if args.len() < 2 {
            return fail(
                &location,
                ErrorKind::InvalidCommandBody("a target and an expression are expected".to_owned()),
            );
        }
        let none: Vec<char> = Vec::new();
        let text = join_from(&args, 1, &none);
        match (SetTarget::from_chars(&chars_of(args[0].as_str())), Expr::from_chars(&text)) {
            (Some(target), Some(expr)) => Ok(Command::Eval(Eval { target, expr })),
            _ => fail(&location, ErrorKind::ParseError("a target and an expression are expected".to_owned())),
        }
    }
}


/// Why an assignment does not come about.
pub enum AssignFailure {
    /// The store has no variable for the target, or one of another kind
    /// than the target names.
    Target,
    /// The store has no variable for the source, or one of another kind
    /// than the source names or than the target has.
    Source,
    /// The literal is none of the kind that the target has.
    Literal,
    /// The expression has no value, or the target is no integer.
    Value,
    /// The source is a variable of another entity.
    ForeignSource,
}

/// What an assignment comes to.
pub enum AssignEffect {
    /// The value is written under the key.
    Write(Key, VarView),
    /// The value is to be written to a variable of another entity.
    Remote(AddressView, VarView),
    /// Nothing is written.
    Fail(AssignFailure),
}

/// The variable that a target or a source names in a store, where the
/// store has it and it is of the kind that is named, if one is.
pub open spec fn found(t: SetTargetView, store: Map<Key, VarView>, comp: Seq<char>) -> Option<
    VarView,
> {
    let key = t.key(comp);
    if store.contains_key(key) && (t.var_type matches Some(k) ==> store[key].kind() == k) {
        Some(store[key])
    } else {
        None
    }
}

/// The value that a source gives for a variable of the given kind.
pub open spec fn source_value(
    source: SetSourceView,
    kind: VarType,
    reg: Map<Seq<char>, VarView>,
    store: Map<Key, VarView>,
    comp: Seq<char>,
) -> core::result::Result<VarView, AssignFailure> {
    match source {
        SetSourceView::Literal(s) => match var_of_literal(kind, s) {
            Some(v) => Ok(v),
            None => Err(AssignFailure::Literal),
        },
        SetSourceView::Addr(a) => if a.entity is Some {
            Err(AssignFailure::ForeignSource)
        } else {
            match found(a, store, comp) {
                Some(v) => if v.kind() == kind {
                    Ok(v)
                } else {
                    Err(AssignFailure::Source)
                },
                None => Err(AssignFailure::Source),
            }
        },
        SetSourceView::Eval(e) => match expr_value(e, reg, store, comp) {
            Some(v) => if kind == VarType::Int {
                Ok(VarView::Int(v as i64))
            } else {
                Err(AssignFailure::Value)
            },
            None => Err(AssignFailure::Value),
        },
    }
}

/// What an assignment comes to. A variable of the entity at hand has to
/// exist; it gets a value of its own kind. For a variable of another
/// entity the target names the kind.
pub open spec fn assign_effect(
    cmd: AssignView,
    reg: Map<Seq<char>, VarView>,
    store: Map<Key, VarView>,
    comp: Seq<char>,
) -> AssignEffect {
    match cmd.target.entity {
        None => match found(cmd.target, store, comp) {
            None => AssignEffect::Fail(AssignFailure::Target),
            Some(old) => match source_value(cmd.source, old.kind(), reg, store, comp) {
                Ok(v) => AssignEffect::Write(cmd.target.key(comp), v),
                Err(f) => AssignEffect::Fail(f),
            },
        },
        Some(entity) => match (cmd.target.comp, cmd.target.var_type) {
            (Some(c), Some(kind)) => match source_value(cmd.source, kind, reg, store, comp) {
                Ok(v) => AssignEffect::Remote(
                    AddressView { entity, component: c, var_type: kind, var_id: cmd.target.var_id },
                    v,
                ),
                Err(f) => AssignEffect::Fail(f),
            },
            _ => AssignEffect::Fail(AssignFailure::Target),
        },
    }
}

/// What is written has the kind of the variable that it is written to.
pub proof fn lemma_assign_keeps_kind(
    cmd: AssignView,
    reg: Map<Seq<char>, VarView>,
    store: Map<Key, VarView>,
    comp: Seq<char>,
)
    ensures
        assign_effect(cmd, reg, store, comp) matches AssignEffect::Write(k, v) ==> store.contains_key(
            k,
        ) && v.kind() == store[k].kind(),
{
    if let AssignEffect::Write(k, v) = assign_effect(cmd, reg, store, comp) {
        let old = found(cmd.target, store, comp)->0;
        lemma_source_kind(cmd.source, old.kind(), reg, store, comp);
    }
}

/// The value that a source gives is of the kind that was asked for.
pub proof fn lemma_source_kind(
    source: SetSourceView,
    kind: VarType,
    reg: Map<Seq<char>, VarView>,
    store: Map<Key, VarView>,
    comp: Seq<char>,
)
    ensures
        source_value(source, kind, reg, store, comp) matches Ok(v) ==> v.kind() == kind,
{
}

/// The error that a failure gives: a variable that is not there or of
/// another kind gives `FailedGettingVariable` with its address, a literal
/// that cannot be read `ParseError` with the literal, anything else
/// `Other`.
pub open spec fn failure_of(f: AssignFailure, target: SetTargetView, source: SetSourceView) -> ErrorKindView {
    match f {
        AssignFailure::Target => ErrorKindView::FailedGettingVariable(target.text()),
        AssignFailure::Source => ErrorKindView::FailedGettingVariable(
            match source {
                SetSourceView::Addr(a) => a.text(),
                _ => Seq::empty(),
            },
        ),
        AssignFailure::Literal => ErrorKindView::ParseError(
            match source {
                SetSourceView::Literal(s) => s,
                _ => Seq::empty(),
            },
        ),
        AssignFailure::Value => ErrorKindView::Other("the expression has no value for the target"@),
        AssignFailure::ForeignSource => ErrorKindView::Other(
            "the source is a variable of another entity"@,
        ),
    }
}

fn failure_kind(f: AssignFailure, target: &SetTarget, source: &SetSource) -> (r: ErrorKind)
    ensures
        r@ == failure_of(f, target@, source@),
{
    match f {
        AssignFailure::Target => ErrorKind::FailedGettingVariable(target.to_string()),
        AssignFailure::Source => ErrorKind::FailedGettingVariable(
            match source {
                SetSource::Addr(a) => a.to_string(),
                _ => String::new(),
            },
        ),
        AssignFailure::Literal => ErrorKind::ParseError(
            match source {
                SetSource::Literal(s) => s.clone(),
                _ => String::new(),
            },
        ),
        AssignFailure::Value => ErrorKind::Other("the expression has no value for the target".to_owned()),
        AssignFailure::ForeignSource => ErrorKind::Other(
            "the source is a variable of another entity".to_owned(),
        ),
    }
}

fn find<'a>(t: &SetTarget, storage: &'a Storage, comp: &StringId) -> (r: Option<&'a Var>)
    ensures
        match r {
            Some(v) => found(t@, storage@, comp@) == Some(v@),
            None => found(t@, storage@, comp@) is None,
        },
{
    let key = t.key(comp);
    match storage.get_var(&key, None) {
        Some(v) => {
            match &t.var_type {
                Some(k) => {
                    if v.get_type() == *k {
                        Some(v)
                    } else {
                        None
                    }
                },
                None => Some(v),
            }
        },
        None => None,
    }
}

fn value_of_source(
    source: &SetSource,
    kind: VarType,
    registry: &Registry,
    storage: &Storage,
    comp: &StringId,
) -> (r: core::result::Result<Var, AssignFailure>)
    ensures
        match r {
            Ok(v) => source_value(source@, kind, registry@, storage@, comp@) matches Ok(x) && x == v@,
            Err(f) => source_value(source@, kind, registry@, storage@, comp@) matches Err(x) && x == f,
        },
{
    match source {
        SetSource::Literal(s) => match var_from_literal(kind, &chars_of(s.as_str())) {
            Some(v) => Ok(v),
            None => Err(AssignFailure::Literal),
        },
        SetSource::Addr(a) => {
            if a.entity.is_some() {
                return Err(AssignFailure::ForeignSource);
            }
            match find(a, storage, comp) {
                Some(v) => {
                    if v.get_type() == kind {
                        Ok(v.clone())
                    } else {
                        Err(AssignFailure::Source)
                    }
                },
                None => Err(AssignFailure::Source),
            }
        },
        SetSource::Eval(e) => match e.value(registry, storage, comp) {
            Some(v) => {
                if kind == VarType::Int {
                    Ok(Var::Int(v))
                } else {
                    Err(AssignFailure::Value)
                }
            },
            None => Err(AssignFailure::Value),
        },
    }
}

impl Assign {
    /// What `execute_loc` does: as `assign_effect` says, the value is
    /// written and execution goes on, or the value is handed on to the
    /// entity that it is meant for, or the store stays as it is and the
    /// result is an error at the place of the command.
    pub open spec fn ran(
        self,
        store: Map<Key, VarView>,
        reg: Map<Seq<char>, VarView>,
        comp: Seq<char>,
        location: LocationInfo,
        after_store: Map<Key, VarView>,
        r: CommandResult,
    ) -> bool {
        match assign_effect(self@, reg, store, comp) {
            AssignEffect::Write(k, v) => r == CommandResult::Continue && after_store == store.insert(
                k,
                v,
            ),
            AssignEffect::Remote(a, v) => after_store == store && (r matches CommandResult::ExecExt(
                ExtCommand::SetVar(x),
            ) && x.target@ == a && x.var@ == v),
            AssignEffect::Fail(f) => after_store == store && (r matches CommandResult::Error(e)
                && e.location == location && e.kind@ == failure_of(f, self.target@, self.source@)),
        }
    }

    /// Executes the command.
    pub fn execute_loc(
        &self,
        storage: &mut Storage,
        registry: &Registry,
        comp_name: &StringId,
        location: &LocationInfo,
    ) -> (r: CommandResult)
        ensures
            self.ran(old(storage)@, registry@, comp_name@, *location, final(storage)@, r),
    {
        match &self.target.entity {
            None => {
                let kind = match find(&self.target, storage, comp_name) {
                    Some(v) => v.get_type(),
                    None => {
                        return error_result(
                            location,
                            failure_kind(AssignFailure::Target, &self.target, &self.source),
                        );
                    },
                };
                match value_of_source(&self.source, kind, registry, storage, comp_name) {
                    Ok(v) => {
                        storage.put(&self.target.key(comp_name), v);
                        CommandResult::Continue
                    },
                    Err(f) => error_result(location, failure_kind(f, &self.target, &self.source)),
                }
            },
            Some(entity) => {
                match (&self.target.comp, &self.target.var_type) {
                    (Some(c), Some(kind)) => {
                        match value_of_source(&self.source, *kind, registry, storage, comp_name) {
                            Ok(var) => CommandResult::ExecExt(
                                ExtCommand::SetVar(
                                    ExtSetVar {
                                        target: Address {
                                            entity: entity.clone(),
                                            component: c.clone(),
                                            var_type: *kind,
                                            var_id: self.target.var_id.clone(),
                                        },
                                        var,
                                    },
                                ),
                            ),
                            Err(f) => error_result(
                                location,
                                failure_kind(f, &self.target, &self.source),
                            ),
                        }
                    },
                    _ => error_result(
                        location,
                        failure_kind(AssignFailure::Target, &self.target, &self.source),
                    ),
                }
            },
        }
    }
}

/// The integer that a local address names in a store, with `comp` for a
/// component that is left out; none where the store has no integer there.
pub open spec fn int_at(a: LocalAddressView, store: Map<Key, VarView>, comp: Seq<char>) -> Option<
    i64,
> {
    let key = a.index_in(comp);
    if store.contains_key(key) && store[key] is Int {
        Some(store[key]->Int_0)
    } else {
        None
    }
}

impl SetIntIntAddr {
    /// What `execute_loc` does: where the store has an integer for the
    /// target and one for the source, the target gets the value of the
    /// source and execution goes on; else the store stays as it is and the
    /// result is an error at the place of the command.
    pub open spec fn ran(
        self,
        store: Map<Key, VarView>,
        comp: Seq<char>,
        location: LocationInfo,
        after_store: Map<Key, VarView>,
        r: CommandResult,
    ) -> bool {
        match (int_at(self.target@, store, comp), int_at(self.source@, store, comp)) {
            (Some(_), Some(v)) => r == CommandResult::Continue && after_store == store.insert(
                self.target@.index_in(comp),
                VarView::Int(v),
            ),
            _ => after_store == store && (r matches CommandResult::Error(e) && is_missing_error(
                e,
                location,
                if int_at(self.source@, store, comp) is None {
                    self.source@.text()
                } else {
                    self.target@.text()
                },
            )),
        }
    }

    /// Executes the command.
    pub fn execute_loc(&self, storage: &mut Storage, comp_name: &StringId, location: &LocationInfo) -> (r:
        CommandResult)
        ensures
            self.ran(old(storage)@, comp_name@, *location, final(storage)@, r),
    {
        let target = self.target.storage_index_using(comp_name);
        let source = self.source.storage_index_using(comp_name);
        let value = match storage.get_int(&source) {
            Some(v) => *v,
            None => {
                return error_result(
                    location,
                    ErrorKind::FailedGettingVariable(self.source.to_string()),
                );
            },
        };
        if storage.get_int(&target).is_none() {
            return error_result(location, ErrorKind::FailedGettingVariable(self.target.to_string()));
        }
        storage.insert_int(&target, value);
        CommandResult::Continue
    }
}

/// Where the value of an `eval` goes.
pub enum EvalEffect {
    /// To a variable of the store.
    Store(Key, i64),
    /// To a scratch variable.
    Scratch(Seq<char>, i64),
    /// The expression has no value.
    NoValue,
    /// The target is no integer of the entity at hand.
    NoTarget,
}

/// Where the value of an `eval` goes: to the variable that the target
/// names, which has to be an integer; or, where the target is a mere name
/// of which the component has no variable, to the scratch variable of
/// that name.
pub open spec fn eval_effect(
    cmd: EvalView,
    reg: Map<Seq<char>, VarView>,
    store: Map<Key, VarView>,
    comp: Seq<char>,
) -> EvalEffect {
    match expr_value(cmd.expr, reg, store, comp) {
        None => EvalEffect::NoValue,
        Some(v) => {
            let key = cmd.target.key(comp);
            if cmd.target.entity is Some {
                EvalEffect::NoTarget
            } else if store.contains_key(key) {
                if found(cmd.target, store, comp) is Some && store[key] is Int {
                    EvalEffect::Store(key, v as i64)
                } else {
                    EvalEffect::NoTarget
                }
            } else if cmd.target.comp is None && cmd.target.var_type is None {
                EvalEffect::Scratch(cmd.target.var_id, v as i64)
            } else {
                EvalEffect::NoTarget
            }
        },
    }
}

impl Eval {
    /// What `execute_loc` does: as `eval_effect` says, the value is
    /// written to the store or to the registry and execution goes on, or
    /// both stay as they are and the result is an error at the place of the
    /// command.
    pub open spec fn ran(
        self,
        store: Map<Key, VarView>,
        reg: Map<Seq<char>, VarView>,
        comp: Seq<char>,
        location: LocationInfo,
        after_store: Map<Key, VarView>,
        after_reg: Map<Seq<char>, VarView>,
        r: CommandResult,
    ) -> bool {
        match eval_effect(self@, reg, store, comp) {
            EvalEffect::Store(k, v) => r == CommandResult::Continue && after_store == store.insert(
                k,
                VarView::Int(v),
            ) && after_reg == reg,
            EvalEffect::Scratch(name, v) => r == CommandResult::Continue && after_store == store
                && after_reg == reg.insert(name, VarView::Int(v)),
            EvalEffect::NoValue => after_store == store && after_reg == reg && (r
                matches CommandResult::Error(e) && is_other_error(
                e,
                location,
                "the expression has no value"@,
            )),
            EvalEffect::NoTarget => after_store == store && after_reg == reg && (r
                matches CommandResult::Error(e) && is_missing_error(e, location, self.target@.text())),
        }
    }

    /// Executes the command.
    pub fn execute_loc(
        &self,
        storage: &mut Storage,
        comp_name: &StringId,
        registry: &mut Registry,
        location: &LocationInfo,
    ) -> (r: CommandResult)
        ensures
            self.ran(
                old(storage)@,
                old(registry)@,
                comp_name@,
                *location,
                final(storage)@,
                final(registry)@,
                r,
            ),
    {
        let value = match self.expr.value(registry, storage, comp_name) {
            Some(v) => v,
            None => {
                return error_result(
                    location,
                    ErrorKind::Other("the expression has no value".to_owned()),
                );
            },
        };
        let key = self.target.key(comp_name);
        if self.target.entity.is_some() {
            return error_result(location, ErrorKind::FailedGettingVariable(self.target.to_string()));
        }
        let present = storage.get_var(&key, None).is_some();
        if present {
            let fits = match find(&self.target, storage, comp_name) {
                Some(v) => v.is_int(),
                None => false,
            };
            if fits {
                storage.insert_int(&key, value);
                CommandResult::Continue
            } else {
                error_result(location, ErrorKind::FailedGettingVariable(self.target.to_string()))
            }
        } else if self.target.comp.is_none() && self.target.var_type.is_none() {
            registry.set(self.target.var_id.clone(), Var::Int(value));
            CommandResult::Continue
        } else {
            error_result(location, ErrorKind::FailedGettingVariable(self.target.to_string()))
        }
    }
}

} // verus!
