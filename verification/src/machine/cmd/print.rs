//! Printing. `print` takes its arguments for text, but for those that hold
//! the address of a variable between braces: these stand for the text form
//! of the variable. The line that comes of it is handed to the entity's
//! output, which the application prints.

use vstd::prelude::*;
use crate::entity::storage::{Key, Storage};
use crate::entity::EntityNonSer;
use crate::machine::cmd::flow::error_result;
use crate::machine::cmd::set::{found, target_of_text, SetTarget, SetTargetView};
use crate::machine::cmd::CommandResult;
use crate::machine::error::{is_missing_error, ErrorKind, Result};
use crate::machine::LocationInfo;
use crate::string::StringId;
use crate::text::{chars_of, joined_with, string_of, texts};
use crate::var::VarView;

verus! {

/// One piece of a line: text, or a variable whose text form is meant.
#[derive(Debug, PartialEq)]
pub enum PrintPart {
    Text(String),
    Value(SetTarget),
}

/// The mathematical content of a `PrintPart`.
pub enum PrintPartView {
    Text(Seq<char>),
    Value(SetTargetView),
}

impl View for PrintPart {
    type V = PrintPartView;

    open spec fn view(&self) -> PrintPartView {
        match self {
            PrintPart::Text(s) => PrintPartView::Text(s@),
            PrintPart::Value(t) => PrintPartView::Value(t@),
        }
    }
}

impl Clone for PrintPart {
    fn clone(&self) -> (r: Self)
        ensures
            r == *self,
    {
        match self {
            PrintPart::Text(s) => PrintPart::Text(s.clone()),
            PrintPart::Value(t) => PrintPart::Value(t.clone()),
        }
    }
}

/// The piece that an argument writes: a variable where it holds a target
/// between braces, else the argument as text.
pub open spec fn part_of_text(s: Seq<char>) -> PrintPartView {
    if s.len() >= 2 && s[0] == '{' && s.last() == '}' && target_of_text(
        s.subrange(1, s.len() - 1),
    ) is Some {
        PrintPartView::Value(target_of_text(s.subrange(1, s.len() - 1))->0)
    } else {
        PrintPartView::Text(s)
    }
}

fn part_from(s: &str) -> (r: PrintPart)
    ensures
        r@ == part_of_text(s@),
{
    let chars = chars_of(s);
    let n = chars.len();
    if n >= 2 && chars[0] == '{' && chars[n - 1] == '}' {
        let mut inner: Vec<char> = Vec::new();
        let mut i: usize = 1;
        while i < n - 1
            invariant
                n == chars.len(),
                n >= 2,
                1 <= i <= n - 1,
                inner@ == chars@.subrange(1, i as int),
            decreases n - i,
        {
            inner.push(chars[i]);
            proof {
                assert(chars@.subrange(1, i + 1) =~= chars@.subrange(1, i as int).push(
                    chars@[i as int],
                ));
            }
            i += 1;
        }
        match SetTarget::from_chars(&inner) {
            Some(t) => PrintPart::Value(t),
            None => PrintPart::Text(s.to_owned()),
        }
    } else {
        PrintPart::Text(s.to_owned())
    }
}

/// `print` of one variable.
#[derive(Debug, PartialEq)]
pub struct Print {
    pub source: SetTarget,
}

impl Clone for Print {
    fn clone(&self) -> (r: Self)
        ensures
            r == *self,
    {
        Print { source: self.source.clone() }
    }
}

/// `print` of a line of pieces.
#[derive(Debug, PartialEq)]
pub struct PrintFmt {
    pub parts: Vec<PrintPart>,
}

/// The contents of a sequence of pieces.
pub open spec fn part_views(parts: Seq<PrintPart>) -> Seq<PrintPartView> {
    Seq::new(parts.len(), |i: int| parts[i]@)
}

impl View for PrintFmt {
    type V = Seq<PrintPart>;

    open spec fn view(&self) -> Seq<PrintPart> {
        self.parts@
    }
}

impl Clone for PrintFmt {
    fn clone(&self) -> (r: Self)
        ensures
            r@ == self@,
    {
        let mut parts: Vec<PrintPart> = Vec::new();
        let mut i: usize = 0;
        while i < self.parts.len()
            invariant
                i <= self.parts.len(),
                parts@ == self.parts@.take(i as int),
            decreases self.parts.len() - i,
        {
            parts.push(self.parts[i].clone());
            proof {
                assert(self.parts@.take(i + 1) =~= self.parts@.take(i as int).push(
                    self.parts@[i as int],
                ));
            }
            i += 1;
        }
        proof {
            assert(self.parts@.take(self.parts.len() as int) =~= self.parts@);
        }
        PrintFmt { parts }
    }
}

impl PrintFmt {
    /// What `new` returns for given arguments.
    pub open spec fn built(args: Seq<String>, r: Result<PrintFmt>) -> bool {
        r matches Ok(c) && part_views(c.parts@) == Seq::new(
            args.len(),
            |i: int| part_of_text(args[i]@),
        )
    }

    /// Builds the command: one piece for each argument.
    pub fn new(args: Vec<String>) -> (r: Result<PrintFmt>)
        ensures
            PrintFmt::built(args@, r),
    {
        let mut parts: Vec<PrintPart> = Vec::new();
        let mut i: usize = 0;
        while i < args.len()
            invariant
                i <= args.len(),
                parts@.len() == i,
                forall|j: int| 0 <= j < i ==> (#[trigger] parts@[j])@ == part_of_text(args@[j]@),
            decreases args.len() - i,
        {
            parts.push(part_from(args[i].as_str()));
            i += 1;
        }
        proof {
            assert(part_views(parts@) =~= Seq::new(args@.len(), |i: int| part_of_text(args@[i]@)));
        }
        Ok(PrintFmt { parts })
    }
}


/// The text of a piece: text for itself, a variable for the text form of
/// its value; none where the store lacks the variable.
pub open spec fn part_text(part: PrintPartView, store: Map<Key, VarView>, comp: Seq<char>) -> Option<
    Seq<char>,
> {
    match part {
        PrintPartView::Text(s) => Some(s),
        PrintPartView::Value(t) => match found(t, store, comp) {
            Some(v) => Some(v.text()),
            None => None,
        },
    }
}

/// The texts of the first `n` pieces, if each has one.
pub open spec fn part_texts(parts: Seq<PrintPart>, n: int, store: Map<Key, VarView>, comp: Seq<char>) -> Option<
    Seq<Seq<char>>,
>
    decreases n,
{
    if n <= 0 {
        Some(Seq::empty())
    } else {
        match (part_texts(parts, n - 1, store, comp), part_text(parts[n - 1]@, store, comp)) {
            (Some(before), Some(t)) => Some(before.push(t)),
            _ => None,
        }
    }
}

/// The line that the pieces give: their texts with one space between
/// neighbours.
pub open spec fn line_of(parts: Seq<PrintPart>, store: Map<Key, VarView>, comp: Seq<char>) -> Option<
    Seq<char>,
> {
    match part_texts(parts, parts.len() as int, store, comp) {
        Some(t) => Some(joined_with(t, seq![' '])),
        None => None,
    }
}

/// Once the text of a piece is lacking, so is the line.
proof fn lemma_part_texts_fail(
    parts: Seq<PrintPart>,
    n: int,
    m: int,
    store: Map<Key, VarView>,
    comp: Seq<char>,
)
    requires
        0 <= n <= m,
        part_texts(parts, n, store, comp) is None,
    ensures
        part_texts(parts, m, store, comp) is None,
    decreases m - n,
{
    if n < m {
        lemma_part_texts_fail(parts, n, m - 1, store, comp);
    }
}

/// What printing does: the line, if there is one, is appended to the
/// output and execution goes on; else the output stays as it is and the
/// result is an error at the place of the command.
pub open spec fn printed(
    line: Option<Seq<char>>,
    output: Seq<String>,
    location: LocationInfo,
    after_output: Seq<String>,
    r: CommandResult,
) -> bool {
    match line {
        Some(t) => r == CommandResult::Continue && after_output.len() == output.len() + 1
            && after_output.drop_last() == output && after_output.last()@ == t,
        None => after_output == output && (r matches CommandResult::Error(e) && is_missing_error(
            e,
            location,
            "a variable to print is not there"@,
        )),
    }
}

fn text_of_part(part: &PrintPart, storage: &Storage, comp: &StringId) -> (r: Option<Vec<char>>)
    ensures
        match r {
            Some(t) => part_text(part@, storage@, comp@) == Some(t@),
            None => part_text(part@, storage@, comp@) is None,
        },
{
    match part {
        PrintPart::Text(s) => Some(chars_of(s.as_str())),
        PrintPart::Value(t) => {
            let key = t.key(comp);
            match storage.get_var(&key, None) {
                Some(v) => {
                    let kind_ok = match &t.var_type {
                        Some(k) => v.get_type() == *k,
                        None => true,
                    };
                    if kind_ok {
                        Some(v.to_chars())
                    } else {
                        None
                    }
                },
                None => None,
            }
        },
    }
}

fn print_parts(
    parts: &Vec<PrintPart>,
    storage: &Storage,
    insta: &mut EntityNonSer,
    comp_name: &StringId,
    location: &LocationInfo,
) -> (r: CommandResult)
    ensures
        printed(
            line_of(parts@, storage@, comp_name@),
            old(insta).output@,
            *location,
            final(insta).output@,
            r,
        ),
{
    let mut line: Vec<char> = Vec::new();
    let ghost mut texts: Seq<Seq<char>> = Seq::empty();
    let mut i: usize = 0;
    while i < parts.len()
        invariant
            i <= parts.len(),
            part_texts(parts@, i as int, storage@, comp_name@) == Some(texts),
            line@ == joined_with(texts, seq![' ']),
            insta.output@ == old(insta).output@,
        decreases parts.len() - i,
    {
        match text_of_part(&parts[i], storage, comp_name) {
            Some(t) => {
                if i > 0 {
                    line.push(' ');
                }
                crate::text::push_all(&mut line, &t);
                proof {
                    let next = texts.push(t@);
                    assert(next.drop_last() =~= texts);
                    assert(texts.len() == i) by {
                        lemma_part_texts_len(parts@, i as int, storage@, comp_name@);
                    }
                    if i == 0 {
                        assert(line@ =~= next[0]);
                    } else {
                        assert(line@ =~= joined_with(texts, seq![' ']) + seq![' '] + t@);
                    }
                    texts = next;
                }
            },
            None => {
                proof {
                    lemma_part_texts_fail(parts@, i + 1, parts@.len() as int, storage@, comp_name@);
                }
                return error_result(
                    location,
                    ErrorKind::FailedGettingVariable("a variable to print is not there".to_owned()),
                );
            },
        }
        i += 1;
    }
    let ghost before = insta.output@;
    insta.output.push(string_of(&line));
    proof {
        assert(insta.output@.drop_last() =~= before);
    }
    CommandResult::Continue
}

/// There are as many texts as pieces.
proof fn lemma_part_texts_len(parts: Seq<PrintPart>, n: int, store: Map<Key, VarView>, comp: Seq<char>)
    requires
        0 <= n,
    ensures
        part_texts(parts, n, store, comp) matches Some(t) ==> t.len() == n,
    decreases n,
{
    if n > 0 {
        lemma_part_texts_len(parts, n - 1, store, comp);
    }
}

impl Print {
    /// Executes the command: the text form of the variable is appended to
    /// the output of the entity.
    pub fn execute_loc(
        &self,
        storage: &Storage,
        insta: &mut EntityNonSer,
        comp_name: &StringId,
        location: &LocationInfo,
    ) -> (r: CommandResult)
        ensures
            printed(
                match found(self.source@, storage@, comp_name@) {
                    Some(v) => Some(v.text()),
                    None => None,
                },
                old(insta).output@,
                *location,
                final(insta).output@,
                r,
            ),
    {
        let mut parts: Vec<PrintPart> = Vec::new();
        parts.push(PrintPart::Value(self.source.clone()));
        proof {
            let t = part_text(parts@[0]@, storage@, comp_name@);
            assert(part_texts(parts@, 0, storage@, comp_name@) == Some(Seq::<Seq<char>>::empty()));
            if t is Some {
                assert(part_texts(parts@, 1, storage@, comp_name@) == Some(
                    Seq::<Seq<char>>::empty().push(t->0),
                ));
                assert(joined_with(Seq::<Seq<char>>::empty().push(t->0), seq![' ']) =~= t->0);
            }
        }
        print_parts(&parts, storage, insta, comp_name, location)
    }
}

impl PrintFmt {
    /// Executes the command: the line that the pieces give is appended to
    /// the output of the entity.
    pub fn execute_loc(
        &self,
        storage: &Storage,
        insta: &mut EntityNonSer,
        comp_name: &StringId,
        location: &LocationInfo,
    ) -> (r: CommandResult)
        ensures
            printed(
                line_of(self.parts@, storage@, comp_name@),
                old(insta).output@,
                *location,
                final(insta).output@,
                r,
            ),
    {
        print_parts(&self.parts, storage, insta, comp_name, location)
    }
}

} // verus!
