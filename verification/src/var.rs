//! Values and their kinds. A `Var` is one value of a closed set of kinds:
//! five scalars and a list of each. A floating point number is carried as
//! its IEEE-754 bit pattern, so that values can be stored, compared and
//! moved here without floating point arithmetic.

use vstd::prelude::*;
use crate::text::{chars_eq, chars_of, int_text, nat_text, push_int, push_nat, push_str, string_of, texts};

verus! {

/// The signed integer of the value kinds.
pub type Int = i64;

/// A floating point number, held as the 64 bits of its IEEE-754 form.
#[derive(Clone, Copy, Debug, PartialEq, Eq, Hash, Structural)]
pub struct Float {
    pub bits: u64,
}

impl Float {
    /// The number with the given bit pattern.
    pub fn from_bits(bits: u64) -> (r: Float)
        ensures
            r.bits == bits,
    {
        Float { bits }
    }

    /// The bit pattern of the number.
    pub fn to_bits(&self) -> (r: u64)
        ensures
            r == self.bits,
    {
        self.bits
    }
}

/// The kind of a value.
#[derive(Clone, Copy, Debug, PartialEq, Eq, Hash, Structural)]
pub enum VarType {
    Str,
    Int,
    Float,
    Bool,
    Byte,
    StrList,
    IntList,
    FloatList,
    BoolList,
    ByteList,
}

/// The name of a kind, as addresses write it.
pub open spec fn var_type_text(t: VarType) -> Seq<char> {
    match t {
        VarType::Str => seq!['s', 't', 'r'],
        VarType::Int => seq!['i', 'n', 't'],
        VarType::Float => seq!['f', 'l', 'o', 'a', 't'],
        VarType::Bool => seq!['b', 'o', 'o', 'l'],
        VarType::Byte => seq!['b', 'y', 't', 'e'],
        VarType::StrList => seq!['s', 't', 'r', '_', 'l', 'i', 's', 't'],
        VarType::IntList => seq!['i', 'n', 't', '_', 'l', 'i', 's', 't'],
        VarType::FloatList => seq!['f', 'l', 'o', 'a', 't', '_', 'l', 'i', 's', 't'],
        VarType::BoolList => seq!['b', 'o', 'o', 'l', '_', 'l', 'i', 's', 't'],
        VarType::ByteList => seq!['b', 'y', 't', 'e', '_', 'l', 'i', 's', 't'],
    }
}

/// The kind that a name stands for. Besides the names of `var_type_text`,
/// `string` and `string_list` are accepted for the two text kinds.
pub open spec fn var_type_of_text(s: Seq<char>) -> Option<VarType> {
    if s == var_type_text(VarType::Str) || s == seq!['s', 't', 'r', 'i', 'n', 'g'] {
        Some(VarType::Str)
    } else if s == var_type_text(VarType::Int) {
        Some(VarType::Int)
    } else if s == var_type_text(VarType::Float) {
        Some(VarType::Float)
    } else if s == var_type_text(VarType::Bool) {
        Some(VarType::Bool)
    } else if s == var_type_text(VarType::Byte) {
        Some(VarType::Byte)
    } else if s == var_type_text(VarType::StrList) || s == seq![
        's',
        't',
        'r',
        'i',
        'n',
        'g',
        '_',
        'l',
        'i',
        's',
        't',
    ] {
        Some(VarType::StrList)
    } else if s == var_type_text(VarType::IntList) {
        Some(VarType::IntList)
    } else if s == var_type_text(VarType::FloatList) {
        Some(VarType::FloatList)
    } else if s == var_type_text(VarType::BoolList) {
        Some(VarType::BoolList)
    } else if s == var_type_text(VarType::ByteList) {
        Some(VarType::ByteList)
    } else {
        None
    }
}

impl VarType {
    /// The name of the kind, as characters.
    pub fn to_chars(&self) -> (r: Vec<char>)
        ensures
            r@ == var_type_text(*self),
    {
        let r = match self {
            VarType::Str => vec!['s', 't', 'r'],
            VarType::Int => vec!['i', 'n', 't'],
            VarType::Float => vec!['f', 'l', 'o', 'a', 't'],
            VarType::Bool => vec!['b', 'o', 'o', 'l'],
            VarType::Byte => vec!['b', 'y', 't', 'e'],
            VarType::StrList => vec!['s', 't', 'r', '_', 'l', 'i', 's', 't'],
            VarType::IntList => vec!['i', 'n', 't', '_', 'l', 'i', 's', 't'],
            VarType::FloatList => vec!['f', 'l', 'o', 'a', 't', '_', 'l', 'i', 's', 't'],
            VarType::BoolList => vec!['b', 'o', 'o', 'l', '_', 'l', 'i', 's', 't'],
            VarType::ByteList => vec!['b', 'y', 't', 'e', '_', 'l', 'i', 's', 't'],
        };
        proof {
            assert(r@ =~= var_type_text(*self));
        }
        r
    }

    /// The name of the kind.
    pub fn to_str(&self) -> (r: String)
        ensures
            r@ == var_type_text(*self),
    {
        string_of(&self.to_chars())
    }

    /// The kind that the characters name, if any.
    pub fn from_chars(s: &Vec<char>) -> (r: Option<VarType>)
        ensures
            r == var_type_of_text(s@),
    {
        let long_str = vec!['s', 't', 'r', 'i', 'n', 'g'];
        let long_list = vec!['s', 't', 'r', 'i', 'n', 'g', '_', 'l', 'i', 's', 't'];
        proof {
            assert(long_str@ =~= seq!['s', 't', 'r', 'i', 'n', 'g']);
            assert(long_list@ =~= seq!['s', 't', 'r', 'i', 'n', 'g', '_', 'l', 'i', 's', 't']);
        }
        if chars_eq(s, &VarType::Str.to_chars()) || chars_eq(s, &long_str) {
            Some(VarType::Str)
        } else if chars_eq(s, &VarType::Int.to_chars()) {
            Some(VarType::Int)
        } else if chars_eq(s, &VarType::Float.to_chars()) {
            Some(VarType::Float)
        } else if chars_eq(s, &VarType::Bool.to_chars()) {
            Some(VarType::Bool)
        } else if chars_eq(s, &VarType::Byte.to_chars()) {
            Some(VarType::Byte)
        } else if chars_eq(s, &VarType::StrList.to_chars()) || chars_eq(s, &long_list) {
            Some(VarType::StrList)
        } else if chars_eq(s, &VarType::IntList.to_chars()) {
            Some(VarType::IntList)
        } else if chars_eq(s, &VarType::FloatList.to_chars()) {
            Some(VarType::FloatList)
        } else if chars_eq(s, &VarType::BoolList.to_chars()) {
            Some(VarType::BoolList)
        } else if chars_eq(s, &VarType::ByteList.to_chars()) {
            Some(VarType::ByteList)
        } else {
            None
        }
    }

    /// The kind that the text names, if any.
    pub fn from_str(s: &str) -> (r: Option<VarType>)
        ensures
            r == var_type_of_text(s@),
    {
        VarType::from_chars(&chars_of(s))
    }
}

/// Reading a kind's name gives the kind back.
pub proof fn lemma_var_type_round_trip(t: VarType)
    ensures
        var_type_of_text(var_type_text(t)) == Some(t),
{
    let s = var_type_text(t);
    match t {
        VarType::Str => {},
        VarType::Int => {
            assert(s[0] == 'i');
        },
        VarType::Float => {
            assert(s[0] == 'f');
        },
        VarType::Bool => {
            assert(s[1] == 'o');
        },
        VarType::Byte => {
            assert(s[1] == 'y');
        },
        VarType::StrList => {
            assert(s.len() == 8);
        },
        VarType::IntList => {
            assert(s[0] == 'i' && s.len() == 8);
        },
        VarType::FloatList => {
            assert(s[0] == 'f' && s.len() == 10);
        },
        VarType::BoolList => {
            assert(s[1] == 'o' && s.len() == 9);
        },
        VarType::ByteList => {
            assert(s[1] == 'y' && s.len() == 9);
        },
    }
}

/// A value together with its kind.
#[derive(Debug, PartialEq)]
pub enum Var {
    Str(String),
    Int(Int),
    Float(Float),
    Bool(bool),
    Byte(u8),
    StrList(Vec<String>),
    IntList(Vec<Int>),
    FloatList(Vec<Float>),
    BoolList(Vec<bool>),
    ByteList(Vec<u8>),
}

/// The mathematical content of a `Var`.
pub enum VarView {
    Str(Seq<char>),
    Int(Int),
    Float(Float),
    Bool(bool),
    Byte(u8),
    StrList(Seq<Seq<char>>),
    IntList(Seq<Int>),
    FloatList(Seq<Float>),
    BoolList(Seq<bool>),
    ByteList(Seq<u8>),
}

impl View for Var {
    type V = VarView;

    open spec fn view(&self) -> VarView {
        match self {
            Var::Str(s) => VarView::Str(s@),
            Var::Int(i) => VarView::Int(*i),
            Var::Float(f) => VarView::Float(*f),
            Var::Bool(b) => VarView::Bool(*b),
            Var::Byte(b) => VarView::Byte(*b),
            Var::StrList(l) => VarView::StrList(texts(l@)),
            Var::IntList(l) => VarView::IntList(l@),
            Var::FloatList(l) => VarView::FloatList(l@),
            Var::BoolList(l) => VarView::BoolList(l@),
            Var::ByteList(l) => VarView::ByteList(l@),
        }
    }
}

impl VarView {
    /// The kind of the value.
    pub open spec fn kind(self) -> VarType {
        match self {
            VarView::Str(_) => VarType::Str,
            VarView::Int(_) => VarType::Int,
            VarView::Float(_) => VarType::Float,
            VarView::Bool(_) => VarType::Bool,
            VarView::Byte(_) => VarType::Byte,
            VarView::StrList(_) => VarType::StrList,
            VarView::IntList(_) => VarType::IntList,
            VarView::FloatList(_) => VarType::FloatList,
            VarView::BoolList(_) => VarType::BoolList,
            VarView::ByteList(_) => VarType::ByteList,
        }
    }

    /// The zero or empty value of a kind.
    pub open spec fn zero(t: VarType) -> VarView {
        match t {
            VarType::Str => VarView::Str(Seq::empty()),
            VarType::Int => VarView::Int(0),
            VarType::Float => VarView::Float(Float { bits: 0 }),
            VarType::Bool => VarView::Bool(false),
            VarType::Byte => VarView::Byte(0),
            VarType::StrList => VarView::StrList(Seq::empty()),
            VarType::IntList => VarView::IntList(Seq::empty()),
            VarType::FloatList => VarView::FloatList(Seq::empty()),
            VarType::BoolList => VarView::BoolList(Seq::empty()),
            VarType::ByteList => VarView::ByteList(Seq::empty()),
        }
    }

    /// The text form of the value. Text stands for itself, integers and
    /// bytes are written in decimal, truth values as `true` and `false`, a
    /// floating point number as its bit pattern in decimal, and a list as
    /// its items between square brackets, separated by a comma and a space.
    pub open spec fn text(self) -> Seq<char> {
        match self {
            VarView::Str(s) => s,
            VarView::Int(i) => int_text(i as int),
            VarView::Float(f) => nat_text(f.bits as nat),
            VarView::Bool(b) => bool_text(b),
            VarView::Byte(b) => nat_text(b as nat),
            VarView::StrList(l) => list_text(l),
            VarView::IntList(l) => list_text(l.map_values(|i: Int| int_text(i as int))),
            VarView::FloatList(l) => list_text(l.map_values(|f: Float| nat_text(f.bits as nat))),
            VarView::BoolList(l) => list_text(l.map_values(|b: bool| bool_text(b))),
            VarView::ByteList(l) => list_text(l.map_values(|b: u8| nat_text(b as nat))),
        }
    }
}

/// The text form of a truth value.
pub open spec fn bool_text(b: bool) -> Seq<char> {
    if b {
        seq!['t', 'r', 'u', 'e']
    } else {
        seq!['f', 'a', 'l', 's', 'e']
    }
}

/// The items, each but the first preceded by a comma and a space.
pub open spec fn joined(items: Seq<Seq<char>>) -> Seq<char>
    decreases items.len(),
{
    if items.len() == 0 {
        Seq::empty()
    } else if items.len() == 1 {
        items[0]
    } else {
        joined(items.drop_last()) + seq![',', ' '] + items.last()
    }
}

/// The text form of a list with the given item texts.
pub open spec fn list_text(items: Seq<Seq<char>>) -> Seq<char> {
    seq!['['] + joined(items) + seq![']']
}

fn push_bool(out: &mut Vec<char>, b: bool)
    ensures
        final(out)@ == old(out)@ + bool_text(b),
{
    if b {
        out.push('t');
        out.push('r');
        out.push('u');
        out.push('e');
        proof {
            assert(out@ =~= old(out)@ + bool_text(b));
        }
    } else {
        out.push('f');
        out.push('a');
        out.push('l');
        out.push('s');
        out.push('e');
        proof {
            assert(out@ =~= old(out)@ + bool_text(b));
        }
    }
}

fn push_separator(out: &mut Vec<char>, first: bool)
    ensures
        final(out)@ == old(out)@ + (if first {
            Seq::<char>::empty()
        } else {
            seq![',', ' ']
        }),
{
    if !first {
        out.push(',');
        out.push(' ');
    }
    proof {
        assert(out@ =~= old(out)@ + (if first {
            Seq::<char>::empty()
        } else {
            seq![',', ' ']
        }));
    }
}

/// One more item extends the joined text by a separator, unless it is the
/// first, and the item.
pub proof fn lemma_joined_push(items: Seq<Seq<char>>, item: Seq<char>)
    ensures
        joined(items.push(item)) == joined(items) + (if items.len() == 0 {
            Seq::<char>::empty()
        } else {
            seq![',', ' ']
        }) + item,
{
    let all = items.push(item);
    assert(all.drop_last() =~= items);
    assert(all.last() == item);
    if items.len() == 0 {
        assert(joined(all) =~= Seq::<char>::empty() + Seq::<char>::empty() + item);
    }
}

impl Var {
    /// The zero or empty value of a kind.
    pub fn new(var_type: &VarType) -> (r: Var)
        ensures
            r@ == VarView::zero(*var_type),
    {
        let r = match var_type {
            VarType::Str => Var::Str(String::new()),
            VarType::Int => Var::Int(0),
            VarType::Float => Var::Float(Float { bits: 0 }),
            VarType::Bool => Var::Bool(false),
            VarType::Byte => Var::Byte(0),
            VarType::StrList => Var::StrList(Vec::new()),
            VarType::IntList => Var::IntList(Vec::new()),
            VarType::FloatList => Var::FloatList(Vec::new()),
            VarType::BoolList => Var::BoolList(Vec::new()),
            VarType::ByteList => Var::ByteList(Vec::new()),
        };
        proof {
            assert(texts(Seq::<String>::empty()) =~= Seq::<Seq<char>>::empty());
        }
        r
    }

    /// The kind of the value.
    pub fn get_type(&self) -> (r: VarType)
        ensures
            r == self@.kind(),
    {
        match self {
            Var::Str(_) => VarType::Str,
            Var::Int(_) => VarType::Int,
            Var::Float(_) => VarType::Float,
            Var::Bool(_) => VarType::Bool,
            Var::Byte(_) => VarType::Byte,
            Var::StrList(_) => VarType::StrList,
            Var::IntList(_) => VarType::IntList,
            Var::FloatList(_) => VarType::FloatList,
            Var::BoolList(_) => VarType::BoolList,
            Var::ByteList(_) => VarType::ByteList,
        }
    }

    /// Whether the value is a text.
    pub fn is_str(&self) -> (r: bool)
        ensures
            r == (self@ is Str),
    {
        matches!(self, Var::Str(_))
    }

    /// Whether the value is an integer.
    pub fn is_int(&self) -> (r: bool)
        ensures
            r == (self@ is Int),
    {
        matches!(self, Var::Int(_))
    }

    /// Whether the value is a floating point number.
    pub fn is_float(&self) -> (r: bool)
        ensures
            r == (self@ is Float),
    {
        matches!(self, Var::Float(_))
    }

    /// Whether the value is a truth value.
    pub fn is_bool(&self) -> (r: bool)
        ensures
            r == (self@ is Bool),
    {
        matches!(self, Var::Bool(_))
    }

    /// Whether the value is a byte.
    pub fn is_byte(&self) -> (r: bool)
        ensures
            r == (self@ is Byte),
    {
        matches!(self, Var::Byte(_))
    }

    /// Whether the value is a list of texts.
    pub fn is_str_list(&self) -> (r: bool)
        ensures
            r == (self@ is StrList),
    {
        matches!(self, Var::StrList(_))
    }

    /// Whether the value is a list of integers.
    pub fn is_int_list(&self) -> (r: bool)
        ensures
            r == (self@ is IntList),
    {
        matches!(self, Var::IntList(_))
    }

    /// Whether the value is a list of floating point numbers.
    pub fn is_float_list(&self) -> (r: bool)
        ensures
            r == (self@ is FloatList),
    {
        matches!(self, Var::FloatList(_))
    }

    /// Whether the value is a list of truth values.
    pub fn is_bool_list(&self) -> (r: bool)
        ensures
            r == (self@ is BoolList),
    {
        matches!(self, Var::BoolList(_))
    }

    /// Whether the value is a list of bytes.
    pub fn is_byte_list(&self) -> (r: bool)
        ensures
            r == (self@ is ByteList),
    {
        matches!(self, Var::ByteList(_))
    }

    /// The text, if the value is one.
    pub fn as_str(&self) -> (r: Option<&String>)
        ensures
            match r {
                Some(s) => self@ == VarView::Str(s@),
                None => !(self@ is Str),
            },
    {
        match self {
            Var::Str(s) => Some(s),
            _ => None,
        }
    }

    /// The integer, if the value is one.
    pub fn as_int(&self) -> (r: Option<&Int>)
        ensures
            match r {
                Some(i) => self@ == VarView::Int(*i),
                None => !(self@ is Int),
            },
    {
        match self {
            Var::Int(i) => Some(i),
            _ => None,
        }
    }

    /// The floating point number, if the value is one.
    pub fn as_float(&self) -> (r: Option<&Float>)
        ensures
            match r {
                Some(f) => self@ == VarView::Float(*f),
                None => !(self@ is Float),
            },
    {
        match self {
            Var::Float(f) => Some(f),
            _ => None,
        }
    }

    /// The truth value, if the value is one.
    pub fn as_bool(&self) -> (r: Option<&bool>)
        ensures
            match r {
                Some(b) => self@ == VarView::Bool(*b),
                None => !(self@ is Bool),
            },
    {
        match self {
            Var::Bool(b) => Some(b),
            _ => None,
        }
    }

    /// The byte, if the value is one.
    pub fn as_byte(&self) -> (r: Option<&u8>)
        ensures
            match r {
                Some(b) => self@ == VarView::Byte(*b),
                None => !(self@ is Byte),
            },
    {
        match self {
            Var::Byte(b) => Some(b),
            _ => None,
        }
    }

    /// The list of texts, if the value is one.
    pub fn as_str_list(&self) -> (r: Option<&Vec<String>>)
        ensures
            match r {
                Some(l) => self@ == VarView::StrList(texts(l@)),
                None => !(self@ is StrList),
            },
    {
        match self {
            Var::StrList(l) => Some(l),
            _ => None,
        }
    }

    /// The list of integers, if the value is one.
    pub fn as_int_list(&self) -> (r: Option<&Vec<Int>>)
        ensures
            match r {
                Some(l) => self@ == VarView::IntList(l@),
                None => !(self@ is IntList),
            },
    {
        match self {
            Var::IntList(l) => Some(l),
            _ => None,
        }
    }

    /// The list of floating point numbers, if the value is one.
    pub fn as_float_list(&self) -> (r: Option<&Vec<Float>>)
        ensures
            match r {
                Some(l) => self@ == VarView::FloatList(l@),
                None => !(self@ is FloatList),
            },
    {
        match self {
            Var::FloatList(l) => Some(l),
            _ => None,
        }
    }

    /// The list of truth values, if the value is one.
    pub fn as_bool_list(&self) -> (r: Option<&Vec<bool>>)
        ensures
            match r {
                Some(l) => self@ == VarView::BoolList(l@),
                None => !(self@ is BoolList),
            },
    {
        match self {
            Var::BoolList(l) => Some(l),
            _ => None,
        }
    }

    /// The list of bytes, if the value is one.
    pub fn as_byte_list(&self) -> (r: Option<&Vec<u8>>)
        ensures
            match r {
                Some(l) => self@ == VarView::ByteList(l@),
                None => !(self@ is ByteList),
            },
    {
        match self {
            Var::ByteList(l) => Some(l),
            _ => None,
        }
    }

    /// The text form of the value, as characters.
    pub fn to_chars(&self) -> (r: Vec<char>)
        ensures
            r@ == self@.text(),
    {
        let mut out: Vec<char> = Vec::new();
        match self {
            Var::Str(s) => {
                push_str(&mut out, s.as_str());
            },
            Var::Int(i) => {
                push_int(&mut out, *i);
            },
            Var::Float(f) => {
                push_nat(&mut out, f.bits);
            },
            Var::Bool(b) => {
                push_bool(&mut out, *b);
            },
            Var::Byte(b) => {
                push_nat(&mut out, *b as u64);
            },
            Var::StrList(l) => {
                out.push('[');
                let mut i: usize = 0;
                while i < l.len()
                    invariant
                        i <= l.len(),
                        out@ == seq!['['] + joined(texts(l@).take(i as int)),
                    decreases l.len() - i,
                {
                    proof {
                        lemma_joined_push(texts(l@).take(i as int), l@[i as int]@);
                        assert(texts(l@).take(i + 1) =~= texts(l@).take(i as int).push(
                            l@[i as int]@,
                        ));
                    }
                    push_separator(&mut out, i == 0);
                    push_str(&mut out, l[i].as_str());
                    i += 1;
                }
                out.push(']');
                proof {
                    assert(texts(l@).take(l.len() as int) =~= texts(l@));
                }
            },
            Var::IntList(l) => {
                out.push('[');
                let ghost items = l@.map_values(|i: Int| int_text(i as int));
                let mut i: usize = 0;
                while i < l.len()
                    invariant
                        i <= l.len(),
                        items == l@.map_values(|i: Int| int_text(i as int)),
                        out@ == seq!['['] + joined(items.take(i as int)),
                    decreases l.len() - i,
                {
                    proof {
                        lemma_joined_push(items.take(i as int), items[i as int]);
                        assert(items.take(i + 1) =~= items.take(i as int).push(items[i as int]));
                    }
                    push_separator(&mut out, i == 0);
                    push_int(&mut out, l[i]);
                    i += 1;
                }
                out.push(']');
                proof {
                    assert(items.take(l.len() as int) =~= items);
                }
            },
            Var::FloatList(l) => {
                out.push('[');
                let ghost items = l@.map_values(|f: Float| nat_text(f.bits as nat));
                let mut i: usize = 0;
                while i < l.len()
                    invariant
                        i <= l.len(),
                        items == l@.map_values(|f: Float| nat_text(f.bits as nat)),
                        out@ == seq!['['] + joined(items.take(i as int)),
                    decreases l.len() - i,
                {
                    proof {
                        lemma_joined_push(items.take(i as int), items[i as int]);
                        assert(items.take(i + 1) =~= items.take(i as int).push(items[i as int]));
                    }
                    push_separator(&mut out, i == 0);
                    push_nat(&mut out, l[i].bits);
                    i += 1;
                }
                out.push(']');
                proof {
                    assert(items.take(l.len() as int) =~= items);
                }
            },
            Var::BoolList(l) => {
                out.push('[');
                let ghost items = l@.map_values(|b: bool| bool_text(b));
                let mut i: usize = 0;
                while i < l.len()
                    invariant
                        i <= l.len(),
                        items == l@.map_values(|b: bool| bool_text(b)),
                        out@ == seq!['['] + joined(items.take(i as int)),
                    decreases l.len() - i,
                {
                    proof {
                        lemma_joined_push(items.take(i as int), items[i as int]);
                        assert(items.take(i + 1) =~= items.take(i as int).push(items[i as int]));
                    }
                    push_separator(&mut out, i == 0);
                    push_bool(&mut out, l[i]);
                    i += 1;
                }
                out.push(']');
                proof {
                    assert(items.take(l.len() as int) =~= items);
                }
            },
            Var::ByteList(l) => {
                out.push('[');
                let ghost items = l@.map_values(|b: u8| nat_text(b as nat));
                let mut i: usize = 0;
                while i < l.len()
                    invariant
                        i <= l.len(),
                        items == l@.map_values(|b: u8| nat_text(b as nat)),
                        out@ == seq!['['] + joined(items.take(i as int)),
                    decreases l.len() - i,
                {
                    proof {
                        lemma_joined_push(items.take(i as int), items[i as int]);
                        assert(items.take(i + 1) =~= items.take(i as int).push(items[i as int]));
                    }
                    push_separator(&mut out, i == 0);
                    push_nat(&mut out, l[i] as u64);
                    i += 1;
                }
                out.push(']');
                proof {
                    assert(items.take(l.len() as int) =~= items);
                }
            },
        }
        out
    }

    /// The text form of the value.
    pub fn to_string(&self) -> (r: String)
        ensures
            r@ == self@.text(),
    {
        string_of(&self.to_chars())
    }
}

/// A copy of a list of texts.
pub fn clone_strings(l: &Vec<String>) -> (r: Vec<String>)
    ensures
        r@ == l@,
{
    let mut out: Vec<String> = Vec::new();
    let mut i: usize = 0;
    while i < l.len()
        invariant
            i <= l.len(),
            out@ == l@.take(i as int),
        decreases l.len() - i,
    {
        out.push(l[i].clone());
        proof {
            assert(l@.take(i + 1) =~= l@.take(i as int).push(l@[i as int]));
        }
        i += 1;
    }
    proof {
        assert(l@.take(l.len() as int) =~= l@);
    }
    out
}

impl Clone for Var {
    fn clone(&self) -> (r: Self)
        ensures
            r@ == self@,
    {
        match self {
            Var::Str(s) => Var::Str(s.clone()),
            Var::Int(i) => Var::Int(*i),
            Var::Float(f) => Var::Float(*f),
            Var::Bool(b) => Var::Bool(*b),
            Var::Byte(b) => Var::Byte(*b),
            Var::StrList(l) => Var::StrList(clone_strings(l)),
            Var::IntList(l) => Var::IntList(l.clone()),
            Var::FloatList(l) => Var::FloatList(l.clone()),
            Var::BoolList(l) => Var::BoolList(l.clone()),
            Var::ByteList(l) => Var::ByteList(l.clone()),
        }
    }
}

} // verus!
