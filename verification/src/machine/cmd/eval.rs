//! Integer arithmetic of the machine: atoms, expressions without brackets
//! in which `*`, `/` and `%` bind tighter than `+` and `-`, and comparisons.
//! A name in an expression is looked up in the registry first, then among
//! the variables of the component at hand.

use vstd::prelude::*;
use crate::address::StorageIndex;
use crate::entity::storage::{Key, Storage};
use crate::machine::Registry;
use crate::string::{fits, truncated, StringId};
use crate::text::{all_digits, digits_value, parse_unsigned, string_of};
use crate::var::{Int, Var, VarView};

verus! {

/// An operand: a number or the name of a variable.
#[derive(Debug, PartialEq)]
pub enum Atom {
    Num(Int),
    Var(StringId),
}

/// The mathematical content of an `Atom`.
pub enum AtomView {
    Num(Int),
    Var(Seq<char>),
}

impl View for Atom {
    type V = AtomView;

    open spec fn view(&self) -> AtomView {
        match self {
            Atom::Num(n) => AtomView::Num(*n),
            Atom::Var(name) => AtomView::Var(name@),
        }
    }
}

impl Clone for Atom {
    fn clone(&self) -> (r: Self)
        ensures
            r == *self,
    {
        match self {
            Atom::Num(n) => Atom::Num(*n),
            Atom::Var(name) => Atom::Var(name.clone()),
        }
    }
}

/// Whether a character may stand in a name: a letter of the Latin
/// alphabet, a digit or an underscore.
pub open spec fn is_name_char(c: char) -> bool {
    ('a' <= c && c <= 'z') || ('A' <= c && c <= 'Z') || ('0' <= c && c <= '9') || c == '_'
}

/// Whether a text is a name: not empty, and made of name characters.
pub open spec fn is_name(s: Seq<char>) -> bool {
    s.len() > 0 && forall|i: int| 0 <= i < s.len() ==> is_name_char(#[trigger] s[i])
}

/// The operand that a text writes: a run of digits is a number, which has
/// to fit in an `Int`; any other name is a variable, cut to the length of a
/// `StringId`.
pub open spec fn atom_of_text(s: Seq<char>) -> Option<AtomView> {
    if s.len() > 0 && all_digits(s) {
        if digits_value(s) <= i64::MAX {
            Some(AtomView::Num(digits_value(s) as Int))
        } else {
            None
        }
    } else if is_name(s) {
        Some(AtomView::Var(truncated(s)))
    } else {
        None
    }
}

fn name_char(c: char) -> (r: bool)
    ensures
        r == is_name_char(c),
{
    (c >= 'a' && c <= 'z') || (c >= 'A' && c <= 'Z') || (c >= '0' && c <= '9') || c == '_'
}

fn check_name(s: &Vec<char>) -> (r: bool)
    ensures
        r == is_name(s@),
{
    if s.len() == 0 {
        return false;
    }
    let mut i: usize = 0;
    while i < s.len()
        invariant
            i <= s.len(),
            forall|j: int| 0 <= j < i ==> is_name_char(#[trigger] s@[j]),
        decreases s.len() - i,
    {
        if !name_char(s[i]) {
            return false;
        }
        i += 1;
    }
    true
}

fn check_digits(s: &Vec<char>) -> (r: bool)
    ensures
        r == (s@.len() > 0 && all_digits(s@)),
{
    if s.len() == 0 {
        return false;
    }
    let mut i: usize = 0;
    while i < s.len()
        invariant
            i <= s.len(),
            forall|j: int| 0 <= j < i ==> (#[trigger] crate::text::digit_value(s@[j])) is Some,
        decreases s.len() - i,
    {
        let c = s[i];
        if !(c >= '0' && c <= '9') {
            assert(crate::text::digit_value(s@[i as int]) is None);
            return false;
        }
        assert(crate::text::digit_value(c) is Some);
        i += 1;
    }
    true
}

impl Atom {
    /// Reads an operand.
    pub fn from_chars(s: &Vec<char>) -> (r: Option<Atom>)
        ensures
            match r {
                Some(a) => atom_of_text(s@) == Some(a@),
                None => atom_of_text(s@) is None,
            },
    {
        if check_digits(s) {
            proof {
                assert(s@[0] != '+') by {
                    assert(crate::text::digit_value(s@[0]) is Some);
                }
            }
            match parse_unsigned(s, 9223372036854775807u64) {
                Some(n) => Some(Atom::Num(n as i64)),
                None => None,
            }
        } else if check_name(s) {
            let text = string_of(s);
            Some(Atom::Var(StringId::new_truncate(text.as_str())))
        } else {
            None
        }
    }
}

/// The number that a stored value stands for in arithmetic, if it stands
/// for one: an integer for itself, a byte for its value, a truth value for
/// one or zero.
pub open spec fn scalar_int(v: VarView) -> Option<int> {
    match v {
        VarView::Int(i) => Some(i as int),
        VarView::Byte(b) => Some(b as int),
        VarView::Bool(b) => Some(
            if b {
                1int
            } else {
                0int
            },
        ),
        _ => None,
    }
}

/// The number that an operand stands for: a number for itself, a name for
/// the scratch variable of that name or, where there is none, for the
/// variable of that name of the component `comp`.
pub open spec fn atom_value(
    a: AtomView,
    reg: Map<Seq<char>, VarView>,
    store: Map<Key, VarView>,
    comp: Seq<char>,
) -> Option<int> {
    match a {
        AtomView::Num(n) => Some(n as int),
        AtomView::Var(name) => if reg.contains_key(name) {
            scalar_int(reg[name])
        } else if store.contains_key((comp, name)) {
            scalar_int(store[(comp, name)])
        } else {
            None
        },
    }
}

fn scalar_of(v: &Var) -> (r: Option<Int>)
    ensures
        match r {
            Some(i) => scalar_int(v@) == Some(i as int),
            None => scalar_int(v@) is None,
        },
{
    match v {
        Var::Int(i) => Some(*i),
        Var::Byte(b) => Some(*b as i64),
        Var::Bool(b) => Some(
            if *b {
                1
            } else {
                0
            },
        ),
        _ => None,
    }
}

impl Atom {
    /// The number that the operand stands for.
    pub fn value(&self, registry: &Registry, storage: &Storage, comp: &StringId) -> (r: Option<Int>)
        ensures
            match r {
                Some(i) => atom_value(self@, registry@, storage@, comp@) == Some(i as int),
                None => atom_value(self@, registry@, storage@, comp@) is None,
            },
    {
        match self {
            Atom::Num(n) => Some(*n),
            Atom::Var(name) => {
                match registry.get(name) {
                    Some(v) => scalar_of(v),
                    None => {
                        let idx: StorageIndex = (comp.clone(), name.clone());
                        match storage.get_var(&idx, None) {
                            Some(v) => scalar_of(v),
                            None => None,
                        }
                    },
                }
            },
        }
    }
}

/// An arithmetic operator.
#[derive(Clone, Copy, Debug, PartialEq, Eq, Structural)]
pub enum ArithOp {
    Add,
    Sub,
    Mul,
    Div,
    Rem,
}

/// Whether a character is an arithmetic operator.
pub open spec fn is_op_char(c: char) -> bool {
    c == '+' || c == '-' || c == '*' || c == '/' || c == '%'
}

/// The operator that a character writes; addition for any other character.
pub open spec fn op_of_char(c: char) -> ArithOp {
    if c == '-' {
        ArithOp::Sub
    } else if c == '*' {
        ArithOp::Mul
    } else if c == '/' {
        ArithOp::Div
    } else if c == '%' {
        ArithOp::Rem
    } else {
        ArithOp::Add
    }
}

/// The pieces of a text between its operator characters.
pub open spec fn op_pieces(s: Seq<char>) -> Seq<Seq<char>>
    decreases s.len(),
{
    if s.len() == 0 {
        seq![Seq::<char>::empty()]
    } else if is_op_char(s.last()) {
        op_pieces(s.drop_last()).push(Seq::<char>::empty())
    } else {
        let before = op_pieces(s.drop_last());
        before.update(before.len() - 1, before.last().push(s.last()))
    }
}

/// The operators of a text, in their order.
pub open spec fn op_chars(s: Seq<char>) -> Seq<ArithOp>
    decreases s.len(),
{
    if s.len() == 0 {
        Seq::empty()
    } else if is_op_char(s.last()) {
        op_chars(s.drop_last()).push(op_of_char(s.last()))
    } else {
        op_chars(s.drop_last())
    }
}

/// There is one piece more than there are operators.
pub proof fn lemma_pieces_and_ops(s: Seq<char>)
    ensures
        op_pieces(s).len() == op_chars(s).len() + 1,
    decreases s.len(),
{
    if s.len() > 0 {
        lemma_pieces_and_ops(s.drop_last());
    }
}

/// An expression: a first operand, then operators with one operand each.
#[derive(Debug, PartialEq)]
pub struct Expr {
    pub first: Atom,
    pub rest: Vec<(ArithOp, Atom)>,
}

/// The mathematical content of an `Expr`.
pub struct ExprView {
    pub first: AtomView,
    pub rest: Seq<(ArithOp, AtomView)>,
}

impl View for Expr {
    type V = ExprView;

    open spec fn view(&self) -> ExprView {
        ExprView {
            first: self.first@,
            rest: Seq::new(self.rest@.len(), |i: int| (self.rest@[i].0, self.rest@[i].1@)),
        }
    }
}

impl Clone for Expr {
    fn clone(&self) -> (r: Self)
        ensures
            r@ == self@,
    {
        let mut rest: Vec<(ArithOp, Atom)> = Vec::new();
        let mut i: usize = 0;
        while i < self.rest.len()
            invariant
                i <= self.rest.len(),
                rest@ == self.rest@.take(i as int),
            decreases self.rest.len() - i,
        {
            rest.push((self.rest[i].0, self.rest[i].1.clone()));
            proof {
                assert(self.rest@.take(i + 1) =~= self.rest@.take(i as int).push(
                    self.rest@[i as int],
                ));
            }
            i += 1;
        }
        proof {
            assert(self.rest@.take(self.rest.len() as int) =~= self.rest@);
        }
        let r = Expr { first: self.first.clone(), rest };
        proof {
            assert(r@.rest =~= self@.rest);
        }
        r
    }
}

/// Whether every piece writes an operand.
pub open spec fn all_atoms(pieces: Seq<Seq<char>>) -> bool {
    forall|i: int| 0 <= i < pieces.len() ==> (#[trigger] atom_of_text(pieces[i])) is Some
}

/// The expression that a text writes, if it writes one: operands between
/// operator characters, without spaces.
pub open spec fn expr_of_text(s: Seq<char>) -> Option<ExprView> {
    let pieces = op_pieces(s);
    let ops = op_chars(s);
    if all_atoms(pieces) {
        Some(
            ExprView {
                first: atom_of_text(pieces[0])->0,
                rest: Seq::new(ops.len(), |i: int| (ops[i], atom_of_text(pieces[i + 1])->0)),
            },
        )
    } else {
        None
    }
}

fn op_char(c: char) -> (r: Option<ArithOp>)
    ensures
        match r {
            Some(op) => is_op_char(c) && op == op_of_char(c),
            None => !is_op_char(c),
        },
{
    if c == '+' {
        Some(ArithOp::Add)
    } else if c == '-' {
        Some(ArithOp::Sub)
    } else if c == '*' {
        Some(ArithOp::Mul)
    } else if c == '/' {
        Some(ArithOp::Div)
    } else if c == '%' {
        Some(ArithOp::Rem)
    } else {
        None
    }
}

impl Expr {
    /// Reads an expression.
    pub fn from_chars(s: &Vec<char>) -> (r: Option<Expr>)
        ensures
            match r {
                Some(e) => expr_of_text(s@) == Some(e@),
                None => expr_of_text(s@) is None,
            },
    {
        // cut the text into pieces and operators
        let mut pieces: Vec<Vec<char>> = Vec::new();
        let mut ops: Vec<ArithOp> = Vec::new();
        let mut cur: Vec<char> = Vec::new();
        let mut i: usize = 0;
        proof {
            assert(s@.take(0) =~= Seq::<char>::empty());
            assert(crate::text::rows(pieces@).push(cur@) =~= op_pieces(s@.take(0)));
        }
        while i < s.len()
            invariant
                i <= s.len(),
                crate::text::rows(pieces@).push(cur@) == op_pieces(s@.take(i as int)),
                ops@ == op_chars(s@.take(i as int)),
            decreases s.len() - i,
        {
            let ghost pre = s@.take(i as int);
            let ghost next = s@.take(i + 1);
            let ghost old_rows = crate::text::rows(pieces@);
            let ghost old_cur = cur@;
            proof {
                assert(next.drop_last() =~= pre);
                assert(next.last() == s@[i as int]);
            }
            match op_char(s[i]) {
                Some(op) => {
                    pieces.push(cur);
                    cur = Vec::new();
                    ops.push(op);
                    proof {
                        assert(crate::text::rows(pieces@) =~= old_rows.push(old_cur));
                        assert(crate::text::rows(pieces@).push(cur@) =~= op_pieces(next));
                    }
                },
                None => {
                    cur.push(s[i]);
                    proof {
                        let before = op_pieces(pre);
                        assert(before.last() == old_cur);
                        assert(crate::text::rows(pieces@).push(cur@) =~= before.update(
                            before.len() - 1,
                            before.last().push(s@[i as int]),
                        ));
                    }
                },
            }
            i += 1;
        }
        let ghost fin_rows = crate::text::rows(pieces@);
        let ghost fin_cur = cur@;
        pieces.push(cur);
        proof {
            assert(s@.take(s.len() as int) =~= s@);
            assert(crate::text::rows(pieces@) =~= fin_rows.push(fin_cur));
            lemma_pieces_and_ops(s@);
        }
        let ghost texts = op_pieces(s@);
        // read the operands
        let mut atoms: Vec<Atom> = Vec::new();
        let mut k: usize = 0;
        while k < pieces.len()
            invariant
                k <= pieces.len(),
                crate::text::rows(pieces@) == texts,
                texts == op_pieces(s@),
                atoms@.len() == k,
                forall|j: int| 0 <= j < k ==> #[trigger] atom_of_text(texts[j]) == Some(atoms@[j]@),
            decreases pieces.len() - k,
        {
            proof {
                assert(texts[k as int] == pieces@[k as int]@);
            }
            match Atom::from_chars(&pieces[k]) {
                Some(a) => {
                    atoms.push(a);
                },
                None => {
                    proof {
                        assert(atom_of_text(texts[k as int]) is None);
                    }
                    return None;
                },
            }
            k += 1;
        }
        proof {
            assert(all_atoms(texts));
        }
        let first = atoms[0].clone();
        let mut rest: Vec<(ArithOp, Atom)> = Vec::new();
        let mut n: usize = 0;
        while n < ops.len()
            invariant
                n <= ops.len(),
                atoms@.len() == ops@.len() + 1,
                rest@.len() == n,
                forall|j: int| 0 <= j < n ==> (#[trigger] rest@[j]).0 == ops@[j] && rest@[j].1 == atoms@[j + 1],
            decreases ops.len() - n,
        {
            rest.push((ops[n], atoms[n + 1].clone()));
            n += 1;
        }
        let e = Expr { first, rest };
        proof {
            assert(e@.rest =~= expr_of_text(s@)->0.rest);
        }
        Some(e)
    }
}

/// Whether a number fits in an `Int`.
pub open spec fn in_range(v: int) -> bool {
    i64::MIN <= v <= i64::MAX
}

/// The magnitude of a number.
pub open spec fn magnitude(a: int) -> int {
    if a < 0 {
        -a
    } else {
        a
    }
}

/// Division that rounds towards zero.
pub open spec fn trunc_div(a: int, b: int) -> int {
    let q = magnitude(a) / magnitude(b);
    if (a < 0) != (b < 0) {
        -q
    } else {
        q
    }
}

/// The remainder of the division that rounds towards zero; it has the sign
/// of the dividend.
pub open spec fn trunc_rem(a: int, b: int) -> int {
    let r = magnitude(a) % magnitude(b);
    if a < 0 {
        -r
    } else {
        r
    }
}

/// One step of the evaluation. The state is the sum of the terms that are
/// complete and the value of the term at hand; an additive operator
/// completes the term and starts a new one, a multiplicative operator
/// extends it. Nothing comes of a step that leaves the range of `Int` or
/// divides by zero.
pub open spec fn eval_step(state: (int, int), op: ArithOp, a: int) -> Option<(int, int)> {
    let (sum, term) = state;
    match op {
        ArithOp::Add => if in_range(sum + term) {
            Some((sum + term, a))
        } else {
            None
        },
        ArithOp::Sub => if in_range(sum + term) && in_range(-a) {
            Some((sum + term, -a))
        } else {
            None
        },
        ArithOp::Mul => if in_range(term * a) {
            Some((sum, term * a))
        } else {
            None
        },
        ArithOp::Div => if a != 0 && in_range(trunc_div(term, a)) {
            Some((sum, trunc_div(term, a)))
        } else {
            None
        },
        ArithOp::Rem => if a != 0 {
            Some((sum, trunc_rem(term, a)))
        } else {
            None
        },
    }
}

/// The state after the first `n` operators of an expression.
pub open spec fn eval_state(
    e: ExprView,
    n: int,
    reg: Map<Seq<char>, VarView>,
    store: Map<Key, VarView>,
    comp: Seq<char>,
) -> Option<(int, int)>
    decreases n,
{
    if n <= 0 {
        match atom_value(e.first, reg, store, comp) {
            Some(v) => Some((0int, v)),
            None => None,
        }
    } else {
        match (eval_state(e, n - 1, reg, store, comp), atom_value(e.rest[n - 1].1, reg, store, comp)) {
            (Some(state), Some(a)) => eval_step(state, e.rest[n - 1].0, a),
            _ => None,
        }
    }
}

/// The value of an expression, if it has one: every name stands for a
/// number, no division is by zero and no step leaves the range of `Int`.
pub open spec fn expr_value(
    e: ExprView,
    reg: Map<Seq<char>, VarView>,
    store: Map<Key, VarView>,
    comp: Seq<char>,
) -> Option<int> {
    match eval_state(e, e.rest.len() as int, reg, store, comp) {
        Some((sum, term)) => if in_range(sum + term) {
            Some(sum + term)
        } else {
            None
        },
        None => None,
    }
}

fn narrow(v: i128) -> (r: Option<Int>)
    ensures
        match r {
            Some(i) => in_range(v as int) && i == v,
            None => !in_range(v as int),
        },
{
    if v >= -9223372036854775808i128 && v <= 9223372036854775807i128 {
        Some(v as i64)
    } else {
        None
    }
}

fn abs_of(a: i64) -> (r: u64)
    ensures
        r == magnitude(a as int),
{
    if a == i64::MIN {
        9223372036854775808u64
    } else if a < 0 {
        (-a) as u64
    } else {
        a as u64
    }
}

fn step(sum: i64, term: i64, op: ArithOp, a: i64) -> (r: Option<(i64, i64)>)
    ensures
        match r {
            Some(s) => eval_step((sum as int, term as int), op, a as int) == Some(
                (s.0 as int, s.1 as int),
            ),
            None => eval_step((sum as int, term as int), op, a as int) is None,
        },
{
    match op {
        ArithOp::Add => match narrow(sum as i128 + term as i128) {
            Some(s) => Some((s, a)),
            None => None,
        },
        ArithOp::Sub => match (narrow(sum as i128 + term as i128), narrow(-(a as i128))) {
            (Some(s), Some(t)) => Some((s, t)),
            _ => None,
        },
        ArithOp::Mul => {
            assert(-170141183460469231731687303715884105728 <= (term as int) * (a as int)
                <= 170141183460469231731687303715884105727) by (nonlinear_arith)
                requires
                    -9223372036854775808 <= term <= 9223372036854775807,
                    -9223372036854775808 <= a <= 9223372036854775807,
            ;
            match narrow(term as i128 * a as i128) {
                Some(t) => Some((sum, t)),
                None => None,
            }
        },
        ArithOp::Div => {
            if a == 0 {
                None
            } else {
                let q = (abs_of(term) / abs_of(a)) as i128;
                let signed = if (term < 0) != (a < 0) {
                    -q
                } else {
                    q
                };
                match narrow(signed) {
                    Some(t) => Some((sum, t)),
                    None => None,
                }
            }
        },
        ArithOp::Rem => {
            if a == 0 {
                None
            } else {
                let m = abs_of(a);
                let r = (abs_of(term) % m) as i128;
                assert(r < m);
                let signed = if term < 0 {
                    -r
                } else {
                    r
                };
                match narrow(signed) {
                    Some(t) => Some((sum, t)),
                    None => None,
                }
            }
        },
    }
}

impl Expr {
    /// The value of the expression.
    pub fn value(&self, registry: &Registry, storage: &Storage, comp: &StringId) -> (r: Option<Int>)
        ensures
            match r {
                Some(v) => expr_value(self@, registry@, storage@, comp@) == Some(v as int),
                None => expr_value(self@, registry@, storage@, comp@) is None,
            },
    {
        let mut state: (i64, i64) = match self.first.value(registry, storage, comp) {
            Some(v) => (0, v),
            None => {
                proof {
                    lemma_state_fails_on(self@, 0, self@.rest.len() as int, registry@, storage@, comp@);
                }
                return None;
            },
        };
        let mut i: usize = 0;
        while i < self.rest.len()
            invariant
                i <= self.rest.len(),
                eval_state(self@, i as int, registry@, storage@, comp@) == Some(
                    (state.0 as int, state.1 as int),
                ),
            decreases self.rest.len() - i,
        {
            let op = self.rest[i].0;
            proof {
                assert(self@.rest[i as int] == (op, self.rest@[i as int].1@));
            }
            let next = match self.rest[i].1.value(registry, storage, comp) {
                Some(a) => step(state.0, state.1, op, a),
                None => None,
            };
            match next {
                Some(s) => {
                    state = s;
                },
                None => {
                    proof {
                        lemma_state_fails_on(
                            self@,
                            i + 1,
                            self@.rest.len() as int,
                            registry@,
                            storage@,
                            comp@,
                        );
                    }
                    return None;
                },
            }
            i += 1;
        }
        narrow(state.0 as i128 + state.1 as i128)
    }
}

/// Once the evaluation has failed it stays failed.
proof fn lemma_state_fails_on(
    e: ExprView,
    n: int,
    m: int,
    reg: Map<Seq<char>, VarView>,
    store: Map<Key, VarView>,
    comp: Seq<char>,
)
    requires
        0 <= n <= m,
        eval_state(e, n, reg, store, comp) is None,
    ensures
        eval_state(e, m, reg, store, comp) is None,
    decreases m - n,
{
    if n < m {
        lemma_state_fails_on(e, n, m - 1, reg, store, comp);
    }
}

/// A comparison operator.
#[derive(Clone, Copy, Debug, PartialEq, Eq, Structural)]
pub enum CmpOp {
    Eq,
    Ne,
    Lt,
    Le,
    Gt,
    Ge,
}

/// Whether a comparison holds of two numbers.
pub open spec fn compares(op: CmpOp, a: int, b: int) -> bool {
    match op {
        CmpOp::Eq => a == b,
        CmpOp::Ne => a != b,
        CmpOp::Lt => a < b,
        CmpOp::Le => a <= b,
        CmpOp::Gt => a > b,
        CmpOp::Ge => a >= b,
    }
}

/// A condition: two operands and the comparison between them.
#[derive(Debug, PartialEq)]
pub struct Cond {
    pub left: Atom,
    pub op: CmpOp,
    pub right: Atom,
}

impl Clone for Cond {
    fn clone(&self) -> (r: Self)
        ensures
            r == *self,
    {
        Cond { left: self.left.clone(), op: self.op, right: self.right.clone() }
    }
}

/// Whether a condition holds, if both operands stand for numbers.
pub open spec fn cond_value(
    c: Cond,
    reg: Map<Seq<char>, VarView>,
    store: Map<Key, VarView>,
    comp: Seq<char>,
) -> Option<bool> {
    match (atom_value(c.left@, reg, store, comp), atom_value(c.right@, reg, store, comp)) {
        (Some(a), Some(b)) => Some(compares(c.op, a, b)),
        _ => None,
    }
}

impl Cond {
    /// Whether the condition holds.
    pub fn value(&self, registry: &Registry, storage: &Storage, comp: &StringId) -> (r: Option<bool>)
        ensures
            r == cond_value(*self, registry@, storage@, comp@),
    {
        let a = self.left.value(registry, storage, comp);
        let b = self.right.value(registry, storage, comp);
        match (a, b) {
            (Some(x), Some(y)) => Some(
                match self.op {
                    CmpOp::Eq => x == y,
                    CmpOp::Ne => x != y,
                    CmpOp::Lt => x < y,
                    CmpOp::Le => x <= y,
                    CmpOp::Gt => x > y,
                    CmpOp::Ge => x >= y,
                },
            ),
            _ => None,
        }
    }
}

} // verus!
