//! Flow control: blocks and their ends, conditionals, loops, procedures
//! and calls. A block runs from the command that opens it to the `end`
//! that closes it; blocks nest.

use vstd::prelude::*;
use crate::entity::storage::{Key, Storage};
use crate::entity::EntityId;
use crate::machine::cmd::eval::{atom_of_text, atom_value, cond_value, Atom, AtomView, CmpOp, Cond};
use crate::machine::cmd::{CentralRemoteCommand, CommandResult};
use crate::machine::error::{
    is_body_error, is_missing_error, is_other_error, is_parse_error, Error, ErrorKind, Result,
};
use crate::machine::{after, line_after, CallInfo, CommandPrototype, FrameKind, LocationInfo, Registry};
use crate::model::{component_names, first_named, SimModel};
use crate::var::{Var, VarView};
use crate::string::{clone_opt, truncated, StringId};
use crate::text::{chars_of, is_unsigned, parse_nat, parse_unsigned, str_eq, texts};

verus! {

/// Whether a command head opens a block.
pub open spec fn opens_block(head: Seq<char>) -> bool {
    head == "state"@ || head == "component"@ || head == "comp"@ || head == "if"@ || head == "proc"@
        || head == "procedure"@ || head == "for"@ || head == "loop"@ || head == "while"@
}

/// Whether the prototype at `pos` has the given head.
pub open spec fn has_head(commands: Seq<CommandPrototype>, pos: int, head: Seq<char>) -> bool {
    commands[pos].name matches Some(n) && n@ == head
}

/// Whether the prototype at `pos` opens a block.
pub open spec fn opens_at(commands: Seq<CommandPrototype>, pos: int) -> bool {
    commands[pos].name matches Some(n) && opens_block(n@)
}

/// The line of the `end` that closes the block which is open at `pos`,
/// with `depth` further blocks open inside it.
pub open spec fn block_end(commands: Seq<CommandPrototype>, pos: int, depth: nat) -> Option<int>
    decreases commands.len() - pos,
{
    if pos < 0 || pos >= commands.len() {
        None
    } else if has_head(commands, pos, "end"@) {
        if depth == 0 {
            Some(pos)
        } else {
            block_end(commands, pos + 1, (depth - 1) as nat)
        }
    } else if opens_at(commands, pos) {
        block_end(commands, pos + 1, depth + 1)
    } else {
        block_end(commands, pos + 1, depth)
    }
}

/// The line of the `else` that belongs to the block which is open at
/// `pos`, if it has one.
pub open spec fn else_line(commands: Seq<CommandPrototype>, pos: int, depth: nat) -> Option<int>
    decreases commands.len() - pos,
{
    if pos < 0 || pos >= commands.len() {
        None
    } else if has_head(commands, pos, "end"@) {
        if depth == 0 {
            None
        } else {
            else_line(commands, pos + 1, (depth - 1) as nat)
        }
    } else if opens_at(commands, pos) {
        else_line(commands, pos + 1, depth + 1)
    } else if depth == 0 && has_head(commands, pos, "else"@) {
        Some(pos)
    } else {
        else_line(commands, pos + 1, depth)
    }
}

/// The closing `end` lies behind the position from which it is sought.
pub proof fn lemma_block_end_bounds(commands: Seq<CommandPrototype>, pos: int, depth: nat)
    ensures
        block_end(commands, pos, depth) matches Some(e) ==> pos <= e < commands.len(),
    decreases commands.len() - pos,
{
    if 0 <= pos < commands.len() {
        if has_head(commands, pos, "end"@) {
            if depth > 0 {
                lemma_block_end_bounds(commands, pos + 1, (depth - 1) as nat);
            }
        } else if opens_at(commands, pos) {
            lemma_block_end_bounds(commands, pos + 1, depth + 1);
        } else {
            lemma_block_end_bounds(commands, pos + 1, depth);
        }
    }
}

fn head_is(p: &CommandPrototype, head: &str) -> (r: bool)
    ensures
        r == (p.name matches Some(n) && n@ == head@),
{
    match &p.name {
        Some(n) => str_eq(n.as_str(), head),
        None => false,
    }
}

fn head_opens(p: &CommandPrototype) -> (r: bool)
    ensures
        r == (p.name matches Some(n) && opens_block(n@)),
{
    head_is(p, "state") || head_is(p, "component") || head_is(p, "comp") || head_is(p, "if")
        || head_is(p, "proc") || head_is(p, "procedure") || head_is(p, "for") || head_is(
        p,
        "loop",
    ) || head_is(p, "while")
}

/// The line of the `end` that closes the block opened just before `from`.
pub fn find_end(commands: &Vec<CommandPrototype>, from: usize) -> (r: Option<usize>)
    ensures
        match r {
            Some(e) => block_end(commands@, from as int, 0) == Some(e as int),
            None => block_end(commands@, from as int, 0) is None,
        },
{
    let mut pos: usize = from;
    let mut depth: usize = 0;
    while pos < commands.len()
        invariant
            from <= pos,
            depth <= pos - from,
            block_end(commands@, pos as int, depth as nat) == block_end(commands@, from as int, 0),
        decreases commands.len() - pos,
    {
        if head_is(&commands[pos], "end") {
            if depth == 0 {
                return Some(pos);
            }
            depth -= 1;
        } else if head_opens(&commands[pos]) {
            depth += 1;
        }
        pos += 1;
    }
    None
}

/// The line of the `else` of the block opened just before `from`.
pub fn find_else(commands: &Vec<CommandPrototype>, from: usize) -> (r: Option<usize>)
    ensures
        match r {
            Some(e) => else_line(commands@, from as int, 0) == Some(e as int),
            None => else_line(commands@, from as int, 0) is None,
        },
{
    let mut pos: usize = from;
    let mut depth: usize = 0;
    while pos < commands.len()
        invariant
            from <= pos,
            depth <= pos - from,
            else_line(commands@, pos as int, depth as nat) == else_line(commands@, from as int, 0),
        decreases commands.len() - pos,
    {
        if head_is(&commands[pos], "end") {
            if depth == 0 {
                return None;
            }
            depth -= 1;
        } else if head_opens(&commands[pos]) {
            depth += 1;
        } else if depth == 0 && head_is(&commands[pos], "else") {
            return Some(pos);
        }
        pos += 1;
    }
    None
}

/// The lines of a block: that of its head, and that of its `end`.
pub open spec fn block_span(commands: Seq<CommandPrototype>, location: LocationInfo) -> Option<
    (usize, usize),
> {
    match location.line {
        Some(line) => match block_end(commands, line + 1, 0) {
            Some(e) => Some((line, e as usize)),
            None => None,
        },
        None => None,
    }
}

/// The lines of the block that the command at `location` opens.
pub fn span_of(commands: &Vec<CommandPrototype>, location: &LocationInfo) -> (r: Option<
    (usize, usize),
>)
    ensures
        r == block_span(commands@, *location),
        r matches Some(s) ==> s.0 < s.1 < commands.len(),
{
    match location.line {
        Some(line) => {
            if line >= commands.len() {
                return None;
            }
            proof {
                lemma_block_end_bounds(commands@, line + 1, 0);
            }
            match find_end(commands, line + 1) {
                Some(e) => Some((line, e)),
                None => None,
            }
        },
        None => None,
    }
}

/// An error of the given kind at the given place.
pub fn fail<T>(location: &LocationInfo, kind: ErrorKind) -> (r: Result<T>)
    ensures
        r matches Err(e) && e.location == *location && e.kind == kind,
{
    Err(Error::new(location.clone(), kind))
}

/// The comparison that a text writes.
pub open spec fn cmp_of_text(s: Seq<char>) -> Option<CmpOp> {
    if s == "=="@ {
        Some(CmpOp::Eq)
    } else if s == "!="@ {
        Some(CmpOp::Ne)
    } else if s == "<"@ {
        Some(CmpOp::Lt)
    } else if s == "<="@ {
        Some(CmpOp::Le)
    } else if s == ">"@ {
        Some(CmpOp::Gt)
    } else if s == ">="@ {
        Some(CmpOp::Ge)
    } else {
        None
    }
}

fn cmp_of(s: &str) -> (r: Option<CmpOp>)
    ensures
        r == cmp_of_text(s@),
{
    if str_eq(s, "==") {
        Some(CmpOp::Eq)
    } else if str_eq(s, "!=") {
        Some(CmpOp::Ne)
    } else if str_eq(s, "<") {
        Some(CmpOp::Lt)
    } else if str_eq(s, "<=") {
        Some(CmpOp::Le)
    } else if str_eq(s, ">") {
        Some(CmpOp::Gt)
    } else if str_eq(s, ">=") {
        Some(CmpOp::Ge)
    } else {
        None
    }
}

/// The condition that arguments write: one operand, which holds when it is
/// not zero, or two operands with a comparison between them.
pub open spec fn cond_of_args(args: Seq<Seq<char>>) -> Option<(AtomView, CmpOp, AtomView)> {
    if args.len() == 1 {
        match atom_of_text(args[0]) {
            Some(a) => Some((a, CmpOp::Ne, AtomView::Num(0))),
            None => None,
        }
    } else if args.len() == 3 {
        match (atom_of_text(args[0]), cmp_of_text(args[1]), atom_of_text(args[2])) {
            (Some(a), Some(op), Some(b)) => Some((a, op, b)),
            _ => None,
        }
    } else {
        None
    }
}

/// The content of a condition.
pub open spec fn cond_view(c: Cond) -> (AtomView, CmpOp, AtomView) {
    (c.left@, c.op, c.right@)
}

/// Reads a condition.
pub fn cond_from_args(args: &Vec<String>) -> (r: Option<Cond>)
    ensures
        match r {
            Some(c) => cond_of_args(texts(args@)) == Some(cond_view(c)),
            None => cond_of_args(texts(args@)) is None,
        },
{
    if args.len() == 1 {
        match Atom::from_chars(&chars_of(args[0].as_str())) {
            Some(a) => Some(Cond { left: a, op: CmpOp::Ne, right: Atom::Num(0) }),
            None => None,
        }
    } else if args.len() == 3 {
        let a = Atom::from_chars(&chars_of(args[0].as_str()));
        let op = cmp_of(args[1].as_str());
        let b = Atom::from_chars(&chars_of(args[2].as_str()));
        match (a, op, b) {
            (Some(left), Some(op), Some(right)) => Some(Cond { left, op, right }),
            _ => None,
        }
    } else {
        None
    }
}

/// `state <name>`: opens the block of a state.
#[derive(Debug, PartialEq)]
pub struct State {
    /// The component that the state belongs to; set when the command runs.
    pub comp: Option<StringId>,
    pub name: StringId,
    pub start_line: usize,
    pub end_line: usize,
    /// Line of the program at which the logic of the component begins; set
    /// when the command runs.
    pub offset: usize,
}

impl Clone for State {
    fn clone(&self) -> (r: Self)
        ensures
            r == *self,
    {
        State {
            comp: clone_opt(&self.comp),
            name: self.name.clone(),
            start_line: self.start_line,
            end_line: self.end_line,
            offset: self.offset,
        }
    }
}

/// A named block: what `state`, `component` and `proc` have in common.
pub open spec fn named_block(
    args: Seq<Seq<char>>,
    commands: Seq<CommandPrototype>,
    location: LocationInfo,
) -> Option<(Seq<char>, usize, usize)> {
    if args.len() >= 1 {
        match block_span(commands, location) {
            Some(s) => Some((truncated(args[0]), s.0, s.1)),
            None => None,
        }
    } else {
        None
    }
}

/// Whether an error is the one for arguments that write no named block:
/// it says that a name is expected, or else that the block is not closed.
pub open spec fn is_block_error(e: Error, args: Seq<String>, location: LocationInfo) -> bool {
    is_body_error(
        e,
        location,
        if args.len() == 0 {
            "a name is expected"@
        } else {
            "the block is not closed"@
        },
    )
}

fn named_block_of(args: &Vec<String>, location: &LocationInfo, commands: &Vec<CommandPrototype>) -> (r:
    Result<(StringId, usize, usize)>)
    ensures
        match r {
            Ok(b) => named_block(texts(args@), commands@, *location) == Some((b.0@, b.1, b.2)) && b.1
                < b.2 < commands.len(),
            Err(e) => named_block(texts(args@), commands@, *location) is None && is_block_error(
                e,
                args@,
                *location,
            ),
        },
{
    if args.len() < 1 {
        return fail(location, ErrorKind::InvalidCommandBody("a name is expected".to_owned()));
    }
    match span_of(commands, location) {
        Some(s) => Ok((StringId::new_truncate(args[0].as_str()), s.0, s.1)),
        None => fail(location, ErrorKind::InvalidCommandBody("the block is not closed".to_owned())),
    }
}

impl State {
    /// What `new` returns for given arguments.
    pub open spec fn built(
        args: Seq<String>,
        location: LocationInfo,
        commands: Seq<CommandPrototype>,
        r: Result<State>,
    ) -> bool {
        match r {
            Ok(c) => named_block(texts(args), commands, location) == Some(
                (c.name@, c.start_line, c.end_line),
            ) && c.comp is None && c.offset == 0 && c.start_line < c.end_line,
            Err(e) => named_block(texts(args), commands, location) is None && is_block_error(
                e,
                args,
                location,
            ),
        }
    }

    /// Builds the command from the name in the first argument and the
    /// lines of the block.
    pub fn new(args: Vec<String>, location: &LocationInfo, commands: &Vec<CommandPrototype>) -> (r: Result<State>)
        ensures
            State::built(args@, *location, commands@, r),
    {
        match named_block_of(&args, location, commands) {
            Ok(b) => Ok(State { comp: None, name: b.0, start_line: b.1, end_line: b.2, offset: 0 }),
            Err(e) => Err(e),
        }
    }
}

/// `component <name>`: opens the block that defines a component.
#[derive(Debug, PartialEq)]
pub struct ComponentBlock {
    pub name: StringId,
    pub start_line: usize,
    pub end_line: usize,
}

impl Clone for ComponentBlock {
    fn clone(&self) -> (r: Self)
        ensures
            r == *self,
    {
        ComponentBlock {
            name: self.name.clone(),
            start_line: self.start_line,
            end_line: self.end_line,
        }
    }
}

impl ComponentBlock {
    /// What `new` returns for given arguments.
    pub open spec fn built(
        args: Seq<String>,
        location: LocationInfo,
        commands: Seq<CommandPrototype>,
        r: Result<ComponentBlock>,
    ) -> bool {
        match r {
            Ok(c) => named_block(texts(args), commands, location) == Some(
                (c.name@, c.start_line, c.end_line),
            ) && c.start_line < c.end_line,
            Err(e) => named_block(texts(args), commands, location) is None && is_block_error(
                e,
                args,
                location,
            ),
        }
    }

    /// Builds the command from the name in the first argument and the
    /// lines of the block.
    pub fn new(args: Vec<String>, location: &LocationInfo, commands: &Vec<CommandPrototype>) -> (r: Result<ComponentBlock>)
        ensures
            ComponentBlock::built(args@, *location, commands@, r),
    {
        match named_block_of(&args, location, commands) {
            Ok(b) => Ok(ComponentBlock { name: b.0, start_line: b.1, end_line: b.2 }),
            Err(e) => Err(e),
        }
    }
}

/// `proc <name>`: opens the block of a procedure. `start_line` is the first
/// line of the body.
#[derive(Debug, PartialEq)]
pub struct Procedure {
    pub name: StringId,
    pub start_line: usize,
    pub end_line: usize,
}

impl Clone for Procedure {
    fn clone(&self) -> (r: Self)
        ensures
            r == *self,
    {
        Procedure { name: self.name.clone(), start_line: self.start_line, end_line: self.end_line }
    }
}

impl Procedure {
    /// What `new` returns for given arguments.
    pub open spec fn built(
        args: Seq<String>,
        location: LocationInfo,
        commands: Seq<CommandPrototype>,
        r: Result<Procedure>,
    ) -> bool {
        match r {
            Ok(c) => named_block(texts(args), commands, location) == Some(
                (c.name@, (c.start_line - 1) as usize, c.end_line),
            ) && 1 <= c.start_line <= c.end_line,
            Err(e) => named_block(texts(args), commands, location) is None && is_block_error(
                e,
                args,
                location,
            ),
        }
    }

    /// Builds the command from the name in the first argument and the
    /// lines of the block.
    pub fn new(args: Vec<String>, location: &LocationInfo, commands: &Vec<CommandPrototype>) -> (r: Result<Procedure>)
        ensures
            Procedure::built(args@, *location, commands@, r),
    {
        match named_block_of(&args, location, commands) {
            Ok(b) => Ok(Procedure { name: b.0, start_line: b.1 + 1, end_line: b.2 }),
            Err(e) => Err(e),
        }
    }
}

/// `if <condition>`: runs the lines up to its `else` or `end` where the
/// condition holds, those between `else` and `end` where it does not.
#[derive(Debug, PartialEq)]
pub struct If {
    pub cond: Cond,
    pub start_line: usize,
    pub end_line: usize,
    pub else_line: Option<usize>,
}

impl Clone for If {
    fn clone(&self) -> (r: Self)
        ensures
            r == *self,
    {
        If {
            cond: self.cond.clone(),
            start_line: self.start_line,
            end_line: self.end_line,
            else_line: self.else_line,
        }
    }
}

/// The line of the `else` of the block that opens at `location`.
pub open spec fn else_of(commands: Seq<CommandPrototype>, location: LocationInfo) -> Option<usize> {
    match location.line {
        Some(line) => match else_line(commands, line + 1, 0) {
            Some(e) => Some(e as usize),
            None => None,
        },
        None => None,
    }
}

impl If {
    /// What `new` returns for given arguments.
    pub open spec fn built(
        args: Seq<String>,
        location: LocationInfo,
        commands: Seq<CommandPrototype>,
        r: Result<If>,
    ) -> bool {
        match r {
            Ok(c) => cond_of_args(texts(args)) == Some(cond_view(c.cond)) && block_span(
                commands,
                location,
            ) == Some((c.start_line, c.end_line)) && c.else_line == else_of(commands, location)
                && c.start_line < c.end_line,
            Err(e) => if cond_of_args(texts(args)) is None {
                is_parse_error(e, location, "a condition is expected"@)
            } else {
                block_span(commands, location) is None && is_body_error(
                    e,
                    location,
                    "the block is not closed"@,
                )
            },
        }
    }

    /// Builds the command from the condition in the arguments and the
    /// lines of the block.
    pub fn new(args: Vec<String>, location: &LocationInfo, commands: &Vec<CommandPrototype>) -> (r: Result<If>)
        ensures
            If::built(args@, *location, commands@, r),
    {
        let cond = match cond_from_args(&args) {
            Some(c) => c,
            None => {
                return fail(location, ErrorKind::ParseError("a condition is expected".to_owned()));
            },
        };
        match span_of(commands, location) {
            Some(s) => {
                let else_line = find_else(commands, s.0 + 1);
                Ok(If { cond, start_line: s.0, end_line: s.1, else_line })
            },
            None => fail(
                location,
                ErrorKind::InvalidCommandBody("the block is not closed".to_owned()),
            ),
        }
    }
}

/// `else`: parts the two branches of an `if`.
#[derive(Clone, Copy, Debug, PartialEq, Eq, Structural)]
pub struct Else {}

impl Else {
    /// What `new` returns for given arguments.
    pub open spec fn built(args: Seq<String>, r: Result<Else>) -> bool {
        r is Ok
    }

    /// Builds the command; arguments are not looked at.
    pub fn new(args: Vec<String>) -> (r: Result<Else>)
        ensures
            Else::built(args@, r),
    {
        Ok(Else {  })
    }
}

/// `end`: closes the innermost open block.
#[derive(Clone, Copy, Debug, PartialEq, Eq, Structural)]
pub struct End {}

impl End {
    /// What `new` returns for given arguments.
    pub open spec fn built(args: Seq<String>, r: Result<End>) -> bool {
        r is Ok
    }

    /// Builds the command; arguments are not looked at.
    pub fn new(args: Vec<String>) -> (r: Result<End>)
        ensures
            End::built(args@, r),
    {
        Ok(End {  })
    }
}

/// `break`: leaves the innermost loop.
#[derive(Clone, Copy, Debug, PartialEq, Eq, Structural)]
pub struct Break {}

/// `call <name>`: runs a procedure and comes back.
#[derive(Debug, PartialEq)]
pub struct Call {
    pub proc_name: StringId,
}

impl Clone for Call {
    fn clone(&self) -> (r: Self)
        ensures
            r == *self,
    {
        Call { proc_name: self.proc_name.clone() }
    }
}

impl Call {
    /// What `new` returns for given arguments.
    pub open spec fn built(
        args: Seq<String>,
        location: LocationInfo,
        commands: Seq<CommandPrototype>,
        r: Result<Call>,
    ) -> bool {
        match r {
            Ok(c) => args.len() >= 1 && c.proc_name@ == truncated(args[0]@),
            Err(e) => args.len() == 0 && is_body_error(e, location, "a name is expected"@),
        }
    }

    /// Builds the command from the name in the first argument.
    pub fn new(args: Vec<String>, location: &LocationInfo, commands: &Vec<CommandPrototype>) -> (r: Result<Call>)
        ensures
            Call::built(args@, *location, commands@, r),
    {
        if args.len() < 1 {
            return fail(location, ErrorKind::InvalidCommandBody("a name is expected".to_owned()));
        }
        Ok(Call { proc_name: StringId::new_truncate(args[0].as_str()) })
    }
}

/// `for <variable> in <list>`: runs its block once for each item of a list
/// variable of the component, with the item in the scratch variable.
#[derive(Debug, PartialEq)]
pub struct ForIn {
    pub target: StringId,
    pub source: StringId,
    pub start_line: usize,
    pub end_line: usize,
}

impl Clone for ForIn {
    fn clone(&self) -> (r: Self)
        ensures
            r == *self,
    {
        ForIn {
            target: self.target.clone(),
            source: self.source.clone(),
            start_line: self.start_line,
            end_line: self.end_line,
        }
    }
}

/// Whether arguments have the form `<variable> in <list>`.
pub open spec fn for_args(args: Seq<Seq<char>>) -> bool {
    args.len() == 3 && args[1] == "in"@
}

impl ForIn {
    /// What `new` returns for given arguments.
    pub open spec fn built(
        args: Seq<String>,
        location: LocationInfo,
        commands: Seq<CommandPrototype>,
        r: Result<ForIn>,
    ) -> bool {
        match r {
            Ok(c) => for_args(texts(args)) && c.target@ == truncated(args[0]@) && c.source@
                == truncated(args[2]@) && block_span(commands, location) == Some(
                (c.start_line, c.end_line),
            ) && c.start_line < c.end_line,
            Err(e) => if !for_args(texts(args)) {
                is_body_error(e, location, "a variable, `in` and a list are expected"@)
            } else {
                block_span(commands, location) is None && is_body_error(
                    e,
                    location,
                    "the block is not closed"@,
                )
            },
        }
    }

    /// Builds the command from `<variable> in <list>` and the lines of the
    /// block.
    pub fn new(args: Vec<String>, location: &LocationInfo, commands: &Vec<CommandPrototype>) -> (r: Result<ForIn>)
        ensures
            ForIn::built(args@, *location, commands@, r),
    {
        if args.len() != 3 || !str_eq(args[1].as_str(), "in") {
            return fail(
                location,
                ErrorKind::InvalidCommandBody("a variable, `in` and a list are expected".to_owned()),
            );
        }
        match span_of(commands, location) {
            Some(s) => Ok(
                ForIn {
                    target: StringId::new_truncate(args[0].as_str()),
                    source: StringId::new_truncate(args[2].as_str()),
                    start_line: s.0,
                    end_line: s.1,
                },
            ),
            None => fail(
                location,
                ErrorKind::InvalidCommandBody("the block is not closed".to_owned()),
            ),
        }
    }
}

/// `loop`, `loop <times>` or `while <condition>`: runs its block again and
/// again, until the number of rounds is reached, the condition fails or a
/// `break` leaves it.
#[derive(Debug, PartialEq)]
pub struct Loop {
    pub cond: Option<Cond>,
    pub times: Option<usize>,
    pub start_line: usize,
    pub end_line: usize,
}

impl Clone for Loop {
    fn clone(&self) -> (r: Self)
        ensures
            r == *self,
    {
        Loop {
            cond: match &self.cond {
                Some(c) => Some(c.clone()),
                None => None,
            },
            times: self.times,
            start_line: self.start_line,
            end_line: self.end_line,
        }
    }
}

/// What bounds a loop.
pub enum LoopBound {
    Never,
    Times(usize),
    While((AtomView, CmpOp, AtomView)),
}

/// The bound that arguments write: none without arguments, a number of
/// rounds for one unsigned number, else a condition.
pub open spec fn loop_bound(args: Seq<Seq<char>>) -> Option<LoopBound> {
    if args.len() == 0 {
        Some(LoopBound::Never)
    } else if args.len() == 1 && parse_nat(args[0]) is Some {
        if parse_nat(args[0])->0 <= usize::MAX {
            Some(LoopBound::Times(parse_nat(args[0])->0 as usize))
        } else {
            None
        }
    } else {
        match cond_of_args(args) {
            Some(c) => Some(LoopBound::While(c)),
            None => None,
        }
    }
}

impl Loop {
    /// The bound of the loop.
    pub open spec fn bound(self) -> LoopBound {
        match (self.times, self.cond) {
            (Some(n), _) => LoopBound::Times(n),
            (None, Some(c)) => LoopBound::While(cond_view(c)),
            (None, None) => LoopBound::Never,
        }
    }

    /// What `new` returns for given arguments.
    pub open spec fn built(
        args: Seq<String>,
        location: LocationInfo,
        commands: Seq<CommandPrototype>,
        r: Result<Loop>,
    ) -> bool {
        match r {
            Ok(c) => loop_bound(texts(args)) == Some(c.bound()) && block_span(
                commands,
                location,
            ) == Some((c.start_line, c.end_line)) && c.start_line < c.end_line,
            Err(e) => if loop_bound(texts(args)) is None {
                is_parse_error(e, location, "a number of rounds or a condition is expected"@)
            } else {
                block_span(commands, location) is None && is_body_error(
                    e,
                    location,
                    "the block is not closed"@,
                )
            },
        }
    }

    /// Builds the command from the bound in the arguments and the lines of
    /// the block.
    pub fn new(args: Vec<String>, location: &LocationInfo, commands: &Vec<CommandPrototype>) -> (r: Result<Loop>)
        ensures
            Loop::built(args@, *location, commands@, r),
    {
        let mut cond: Option<Cond> = None;
        let mut times: Option<usize> = None;
        if args.len() == 0 {
        } else if args.len() == 1 && is_unsigned(&chars_of(args[0].as_str())) {
            match parse_unsigned(&chars_of(args[0].as_str()), usize::MAX as u64) {
                Some(n) => {
                    times = Some(n as usize);
                },
                None => {
                    return fail(location, ErrorKind::ParseError(
                            "a number of rounds or a condition is expected".to_owned(),
                        ));
                },
            }
        } else {
            match cond_from_args(&args) {
                Some(c) => {
                    cond = Some(c);
                },
                None => {
                    return fail(
                        location,
                        ErrorKind::ParseError(
                            "a number of rounds or a condition is expected".to_owned(),
                        ),
                    );
                },
            }
        }
        match span_of(commands, location) {
            Some(s) => Ok(Loop { cond, times, start_line: s.0, end_line: s.1 }),
            None => fail(
                location,
                ErrorKind::InvalidCommandBody("the block is not closed".to_owned()),
            ),
        }
    }
}


/// Whether a frame is that of a loop.
pub open spec fn is_loop_frame(f: CallInfo) -> bool {
    f.kind == FrameKind::Loop || f.kind == FrameKind::ForIn
}

/// Whether the top frame of the stack is of the given kind and was opened
/// at the given line.
pub open spec fn reentered(stack: Seq<CallInfo>, kind: FrameKind, line: usize) -> bool {
    stack.len() > 0 && stack.last().kind == kind && stack.last().start_line == line
}

fn is_reentry(call_stack: &Vec<CallInfo>, kind: FrameKind, line: usize) -> (r: bool)
    ensures
        r == reentered(call_stack@, kind, line),
{
    let n = call_stack.len();
    n > 0 && call_stack[n - 1].kind == kind && call_stack[n - 1].start_line == line
}

/// An error result of the given kind at the given place.
pub fn error_result(location: &LocationInfo, kind: ErrorKind) -> (r: CommandResult)
    ensures
        r matches CommandResult::Error(e) && e.location == *location && e.kind == kind,
{
    CommandResult::Error(Error::new(location.clone(), kind))
}

impl If {
    /// What `execute_loc` does: where the condition holds, a frame for the
    /// branch is pushed and execution goes on; where it fails, execution
    /// jumps behind the `else`, with a frame for that branch, or behind
    /// the `end` where there is no `else`. A condition without a value is
    /// an error.
    pub open spec fn ran(
        self,
        stack: Seq<CallInfo>,
        reg: Map<Seq<char>, VarView>,
        store: Map<Key, VarView>,
        comp: Seq<char>,
        location: LocationInfo,
        after_stack: Seq<CallInfo>,
        r: CommandResult,
    ) -> bool {
        match cond_value(self.cond, reg, store, comp) {
            None => after_stack == stack && (r matches CommandResult::Error(e) && is_missing_error(
                e,
                location,
                "the condition has no value"@,
            )),
            Some(true) => r == CommandResult::Continue && after_stack == stack.push(
                CallInfo {
                    kind: FrameKind::If,
                    start_line: self.start_line,
                    end_line: self.end_line,
                    return_line: 0,
                    iteration: 0,
                    name: None,
                },
            ),
            Some(false) => match self.else_line {
                Some(l) => r == CommandResult::JumpToLine(line_after(l)) && after_stack
                    == stack.push(
                    CallInfo {
                        kind: FrameKind::Else,
                        start_line: l,
                        end_line: self.end_line,
                        return_line: 0,
                        iteration: 0,
                        name: None,
                    },
                ),
                None => r == CommandResult::JumpToLine(line_after(self.end_line)) && after_stack
                    == stack,
            },
        }
    }

    /// Executes the command.
    pub fn execute_loc(
        &self,
        call_stack: &mut Vec<CallInfo>,
        registry: &Registry,
        storage: &Storage,
        comp_name: &StringId,
        location: &LocationInfo,
    ) -> (r: CommandResult)
        ensures
            self.ran(
                old(call_stack)@,
                registry@,
                storage@,
                comp_name@,
                *location,
                final(call_stack)@,
                r,
            ),
    {
        match self.cond.value(registry, storage, comp_name) {
            None => error_result(
                location,
                ErrorKind::FailedGettingVariable("the condition has no value".to_owned()),
            ),
            Some(true) => {
                call_stack.push(CallInfo::new(FrameKind::If, self.start_line, self.end_line));
                CommandResult::Continue
            },
            Some(false) => match self.else_line {
                Some(l) => {
                    call_stack.push(CallInfo::new(FrameKind::Else, l, self.end_line));
                    CommandResult::JumpToLine(after(l))
                },
                None => CommandResult::JumpToLine(after(self.end_line)),
            },
        }
    }
}

impl Else {
    /// What `execute_loc` does: at the end of the first branch of an `if`
    /// execution jumps to the `end` of the block; anywhere else `else` is
    /// an error. The stack stays as it is.
    pub open spec fn ran(self, stack: Seq<CallInfo>, location: LocationInfo, r: CommandResult) -> bool {
        if stack.len() > 0 && stack.last().kind == FrameKind::If {
            r == CommandResult::JumpToLine(stack.last().end_line)
        } else {
            r matches CommandResult::Error(e) && is_other_error(e, location, "else without if"@)
        }
    }

    /// Executes the command.
    pub fn execute_loc(&self, call_stack: &Vec<CallInfo>, location: &LocationInfo) -> (r:
        CommandResult)
        ensures
            self.ran(call_stack@, *location, r),
    {
        let n = call_stack.len();
        if n > 0 && call_stack[n - 1].kind == FrameKind::If {
            CommandResult::JumpToLine(call_stack[n - 1].end_line)
        } else {
            error_result(location, ErrorKind::Other("else without if".to_owned()))
        }
    }
}

/// The frame with one more round completed.
pub open spec fn next_round(f: CallInfo) -> CallInfo {
    CallInfo { iteration: line_after(f.iteration), ..f }
}

impl End {
    /// What `execute_loc` does. The top frame decides: a branch, a state, a
    /// component block or a procedure is left and execution goes on; a
    /// loop has completed a round and execution jumps back to its head; a
    /// call returns to the line behind it. Without a frame `end` is an
    /// error.
    pub open spec fn ran(
        self,
        stack: Seq<CallInfo>,
        location: LocationInfo,
        after_stack: Seq<CallInfo>,
        r: CommandResult,
    ) -> bool {
        if stack.len() == 0 {
            after_stack == stack && (r matches CommandResult::Error(e) && is_other_error(
                e,
                location,
                "end without a block"@,
            ))
        } else {
            let top = stack.last();
            if is_loop_frame(top) {
                after_stack == stack.drop_last().push(next_round(top)) && r
                    == CommandResult::JumpToLine(top.start_line)
            } else if top.kind == FrameKind::Call {
                after_stack == stack.drop_last() && r == CommandResult::JumpToLine(top.return_line)
            } else {
                after_stack == stack.drop_last() && r == CommandResult::Continue
            }
        }
    }

    /// Executes the command.
    pub fn execute_loc(&self, call_stack: &mut Vec<CallInfo>, location: &LocationInfo) -> (r:
        CommandResult)
        ensures
            self.ran(old(call_stack)@, *location, final(call_stack)@, r),
    {
        match call_stack.pop() {
            None => error_result(location, ErrorKind::Other("end without a block".to_owned())),
            Some(top) => {
                match top.kind {
                    FrameKind::Loop | FrameKind::ForIn => {
                        let start = top.start_line;
                        call_stack.push(
                            CallInfo {
                                kind: top.kind,
                                start_line: top.start_line,
                                end_line: top.end_line,
                                return_line: top.return_line,
                                iteration: after(top.iteration),
                                name: top.name,
                            },
                        );
                        CommandResult::JumpToLine(start)
                    },
                    FrameKind::Call => CommandResult::JumpToLine(top.return_line),
                    _ => CommandResult::Continue,
                }
            },
        }
    }
}

/// Whether a loop is open: whether one of the frames is that of a loop.
pub open spec fn in_loop(stack: Seq<CallInfo>) -> bool {
    exists|i: int| 0 <= i < stack.len() && is_loop_frame(#[trigger] stack[i])
}

/// The position of the innermost frame of a loop.
pub open spec fn innermost_loop(stack: Seq<CallInfo>) -> Option<int>
    decreases stack.len(),
{
    if stack.len() == 0 {
        None
    } else if is_loop_frame(stack.last()) {
        Some(stack.len() - 1)
    } else {
        innermost_loop(stack.drop_last())
    }
}

/// The innermost frame of a loop is the last frame of a loop; there is
/// none exactly where no loop is open.
pub proof fn lemma_innermost_loop(stack: Seq<CallInfo>)
    ensures
        match innermost_loop(stack) {
            Some(i) => 0 <= i < stack.len() && is_loop_frame(stack[i]) && forall|j: int|
                i < j < stack.len() ==> !is_loop_frame(stack[j]),
            None => !in_loop(stack),
        },
    decreases stack.len(),
{
    if stack.len() > 0 && !is_loop_frame(stack.last()) {
        let rest = stack.drop_last();
        lemma_innermost_loop(rest);
        match innermost_loop(rest) {
            Some(i) => {
                assert(stack[i] == rest[i]);
                assert forall|j: int| i < j < stack.len() implies !is_loop_frame(stack[j]) by {
                    if j < rest.len() {
                        assert(stack[j] == rest[j]);
                    }
                }
            },
            None => {
                if in_loop(stack) {
                    let i = choose|i: int| 0 <= i < stack.len() && is_loop_frame(#[trigger] stack[i]);
                    assert(rest[i] == stack[i]);
                }
            },
        }
    }
}

/// The position of the innermost frame of a loop.
pub fn find_loop(call_stack: &Vec<CallInfo>) -> (r: Option<usize>)
    ensures
        match r {
            Some(i) => innermost_loop(call_stack@) == Some(i as int) && i < call_stack@.len(),
            None => innermost_loop(call_stack@) is None,
        },
{
    let mut n: usize = call_stack.len();
    proof {
        assert(call_stack@.take(n as int) =~= call_stack@);
    }
    while n > 0
        invariant
            n <= call_stack.len(),
            innermost_loop(call_stack@.take(n as int)) == innermost_loop(call_stack@),
        decreases n,
    {
        let f = &call_stack[n - 1];
        proof {
            assert(call_stack@.take(n as int).last() == call_stack@[n - 1]);
            assert(call_stack@.take(n as int).drop_last() =~= call_stack@.take(n - 1));
        }
        if f.kind == FrameKind::Loop || f.kind == FrameKind::ForIn {
            return Some(n - 1);
        }
        n -= 1;
    }
    None
}

impl Break {
    /// What `execute_loc` does: inside a loop the result is `Break`;
    /// outside any loop `break` is an error.
    pub open spec fn ran(self, stack: Seq<CallInfo>, location: LocationInfo, r: CommandResult) -> bool {
        if in_loop(stack) {
            r == CommandResult::Break
        } else {
            r matches CommandResult::Error(e) && is_other_error(e, location, "break outside of a loop"@)
        }
    }

    /// Executes the command.
    pub fn execute_loc(&self, call_stack: &Vec<CallInfo>, location: &LocationInfo) -> (r:
        CommandResult)
        ensures
            self.ran(call_stack@, *location, r),
    {
        proof {
            lemma_innermost_loop(call_stack@);
        }
        match find_loop(call_stack) {
            Some(_) => CommandResult::Break,
            None => error_result(location, ErrorKind::Other("break outside of a loop".to_owned())),
        }
    }
}

impl Procedure {
    /// Executes the command: where execution comes upon the head of a
    /// procedure, it jumps behind the procedure.
    pub fn execute_loc(&self) -> (r: CommandResult)
        ensures
            r == CommandResult::JumpToLine(line_after(self.end_line)),
    {
        CommandResult::JumpToLine(after(self.end_line))
    }
}

impl Call {
    /// What `execute_loc` does: a frame with the line to return to is
    /// pushed and execution jumps to the first line of the procedure. A
    /// component that the model lacks, or that has no procedure of the
    /// name, is an error.
    pub open spec fn ran(
        self,
        stack: Seq<CallInfo>,
        line: usize,
        model: SimModel,
        comp: Seq<char>,
        location: LocationInfo,
        after_stack: Seq<CallInfo>,
        r: CommandResult,
    ) -> bool {
        match first_named(component_names(model.components@), comp) {
            Some(i) if model.components@[i].logic.procedures_view().contains_key(self.proc_name@) => {
                let span = model.components@[i].logic.procedures_view()[self.proc_name@];
                r == CommandResult::JumpToLine(span.0) && after_stack == stack.push(
                    CallInfo {
                        kind: FrameKind::Call,
                        start_line: span.0,
                        end_line: span.1,
                        return_line: line_after(line),
                        iteration: 0,
                        name: None,
                    },
                )
            },
            _ => after_stack == stack && (r matches CommandResult::Error(e) && is_other_error(
                e,
                location,
                "no such procedure"@,
            )),
        }
    }

    /// Executes the command.
    pub fn execute_loc(
        &self,
        call_stack: &mut Vec<CallInfo>,
        line: usize,
        sim_model: &SimModel,
        comp_name: &StringId,
        location: &LocationInfo,
    ) -> (r: CommandResult)
        ensures
            self.ran(
                old(call_stack)@,
                line,
                *sim_model,
                comp_name@,
                *location,
                final(call_stack)@,
                r,
            ),
    {
        let span = match sim_model.get_component(comp_name) {
            Some(c) => c.logic.procedure(&self.proc_name),
            None => None,
        };
        match span {
            Some(s) => {
                call_stack.push(
                    CallInfo {
                        kind: FrameKind::Call,
                        start_line: s.0,
                        end_line: s.1,
                        return_line: after(line),
                        iteration: 0,
                        name: None,
                    },
                );
                CommandResult::JumpToLine(s.0)
            },
            None => error_result(location, ErrorKind::Other("no such procedure".to_owned())),
        }
    }
}

/// Whether a loop goes on after the given number of rounds, if that can be
/// told: a bound of rounds lets it go on while fewer were completed, a
/// condition while it holds.
pub open spec fn goes_on(
    bound: LoopBound,
    rounds: usize,
    reg: Map<Seq<char>, VarView>,
    store: Map<Key, VarView>,
    comp: Seq<char>,
) -> Option<bool> {
    match bound {
        LoopBound::Never => Some(true),
        LoopBound::Times(n) => Some(rounds < n),
        LoopBound::While(c) => match (
            atom_value(c.0, reg, store, comp),
            atom_value(c.2, reg, store, comp),
        ) {
            (Some(a), Some(b)) => Some(crate::machine::cmd::eval::compares(c.1, a, b)),
            _ => None,
        },
    }
}

/// The number of rounds that the loop at the given line has completed:
/// that of its frame, where the stack has it on top, else none.
pub open spec fn rounds_of(stack: Seq<CallInfo>, kind: FrameKind, line: usize) -> usize {
    if reentered(stack, kind, line) {
        stack.last().iteration
    } else {
        0
    }
}

/// The stack where a loop goes on: its frame is pushed unless it is there.
pub open spec fn stack_in_loop(
    stack: Seq<CallInfo>,
    kind: FrameKind,
    start_line: usize,
    end_line: usize,
) -> Seq<CallInfo> {
    if reentered(stack, kind, start_line) {
        stack
    } else {
        stack.push(
            CallInfo { kind, start_line, end_line, return_line: 0, iteration: 0, name: None },
        )
    }
}

/// The stack where a loop is over: its frame is dropped if it is there.
pub open spec fn stack_past_loop(stack: Seq<CallInfo>, kind: FrameKind, start_line: usize) -> Seq<
    CallInfo,
> {
    if reentered(stack, kind, start_line) {
        stack.drop_last()
    } else {
        stack
    }
}

impl Loop {
    /// What `execute_loc` does at the head of a loop. Where the loop goes
    /// on, execution goes on with the first line of the block, and the
    /// frame of the loop is on the stack. Where it is over, the frame is
    /// gone and execution jumps behind the `end`. A condition without a
    /// value is an error.
    pub open spec fn ran(
        self,
        stack: Seq<CallInfo>,
        reg: Map<Seq<char>, VarView>,
        store: Map<Key, VarView>,
        comp: Seq<char>,
        location: LocationInfo,
        after_stack: Seq<CallInfo>,
        r: CommandResult,
    ) -> bool {
        match goes_on(
            self.bound(),
            rounds_of(stack, FrameKind::Loop, self.start_line),
            reg,
            store,
            comp,
        ) {
            None => after_stack == stack && (r matches CommandResult::Error(e) && is_missing_error(
                e,
                location,
                "the condition has no value"@,
            )),
            Some(true) => r == CommandResult::Continue && after_stack == stack_in_loop(
                stack,
                FrameKind::Loop,
                self.start_line,
                self.end_line,
            ),
            Some(false) => r == CommandResult::JumpToLine(line_after(self.end_line))
                && after_stack == stack_past_loop(stack, FrameKind::Loop, self.start_line),
        }
    }

    /// Executes the command.
    pub fn execute_loc(
        &self,
        call_stack: &mut Vec<CallInfo>,
        registry: &Registry,
        storage: &Storage,
        comp_name: &StringId,
        location: &LocationInfo,
    ) -> (r: CommandResult)
        ensures
            self.ran(
                old(call_stack)@,
                registry@,
                storage@,
                comp_name@,
                *location,
                final(call_stack)@,
                r,
            ),
    {
        let again = is_reentry(call_stack, FrameKind::Loop, self.start_line);
        let rounds = if again {
            call_stack[call_stack.len() - 1].iteration
        } else {
            0
        };
        let on = match (&self.times, &self.cond) {
            (Some(n), _) => Some(rounds < *n),
            (None, Some(c)) => c.value(registry, storage, comp_name),
            (None, None) => Some(true),
        };
        match on {
            None => error_result(
                location,
                ErrorKind::FailedGettingVariable("the condition has no value".to_owned()),
            ),
            Some(true) => {
                if !again {
                    call_stack.push(CallInfo::new(FrameKind::Loop, self.start_line, self.end_line));
                }
                CommandResult::Continue
            },
            Some(false) => {
                if again {
                    call_stack.pop();
                }
                CommandResult::JumpToLine(after(self.end_line))
            },
        }
    }
}

/// The number of items of a list value; none for a value that is no list.
pub open spec fn list_len(v: VarView) -> Option<nat> {
    match v {
        VarView::StrList(l) => Some(l.len()),
        VarView::IntList(l) => Some(l.len()),
        VarView::FloatList(l) => Some(l.len()),
        VarView::BoolList(l) => Some(l.len()),
        VarView::ByteList(l) => Some(l.len()),
        _ => None,
    }
}

/// The item of a list value at a position, as a value of its own.
pub open spec fn list_item(v: VarView, i: int) -> VarView {
    match v {
        VarView::StrList(l) => VarView::Str(l[i]),
        VarView::IntList(l) => VarView::Int(l[i]),
        VarView::FloatList(l) => VarView::Float(l[i]),
        VarView::BoolList(l) => VarView::Bool(l[i]),
        VarView::ByteList(l) => VarView::Byte(l[i]),
        _ => v,
    }
}

fn list_length(v: &Var) -> (r: Option<usize>)
    ensures
        match r {
            Some(n) => list_len(v@) == Some(n as nat),
            None => list_len(v@) is None,
        },
{
    match v {
        Var::StrList(l) => Some(l.len()),
        Var::IntList(l) => Some(l.len()),
        Var::FloatList(l) => Some(l.len()),
        Var::BoolList(l) => Some(l.len()),
        Var::ByteList(l) => Some(l.len()),
        _ => None,
    }
}

fn list_get(v: &Var, i: usize) -> (r: Var)
    requires
        list_len(v@) matches Some(n) && i < n,
    ensures
        r@ == list_item(v@, i as int),
{
    match v {
        Var::StrList(l) => Var::Str(l[i].clone()),
        Var::IntList(l) => Var::Int(l[i]),
        Var::FloatList(l) => Var::Float(l[i]),
        Var::BoolList(l) => Var::Bool(l[i]),
        Var::ByteList(l) => Var::Byte(l[i]),
        _ => v.clone(),
    }
}

impl ForIn {
    /// What `execute_loc` does at the head of the loop. The list is the
    /// variable of the component with the name of the source. While the
    /// list has an item for the round, the item is put in the scratch
    /// variable and execution goes on, with the frame of the loop on the
    /// stack. After the last item the frame is gone and execution jumps
    /// behind the `end`. A source that is no list is an error.
    pub open spec fn ran(
        self,
        stack: Seq<CallInfo>,
        reg: Map<Seq<char>, VarView>,
        store: Map<Key, VarView>,
        comp: Seq<char>,
        location: LocationInfo,
        after_stack: Seq<CallInfo>,
        after_reg: Map<Seq<char>, VarView>,
        r: CommandResult,
    ) -> bool {
        let key = (comp, self.source@);
        if store.contains_key(key) && list_len(store[key]) is Some {
            let round = rounds_of(stack, FrameKind::ForIn, self.start_line);
            if round < list_len(store[key])->0 {
                r == CommandResult::Continue && after_stack == stack_in_loop(
                    stack,
                    FrameKind::ForIn,
                    self.start_line,
                    self.end_line,
                ) && after_reg == reg.insert(self.target@, list_item(store[key], round as int))
            } else {
                r == CommandResult::JumpToLine(line_after(self.end_line)) && after_stack
                    == stack_past_loop(stack, FrameKind::ForIn, self.start_line) && after_reg == reg
            }
        } else {
            after_stack == stack && after_reg == reg && (r matches CommandResult::Error(e)
                && is_missing_error(e, location, self.source@))
        }
    }

    /// Executes the command.
    pub fn execute_loc(
        &self,
        call_stack: &mut Vec<CallInfo>,
        registry: &mut Registry,
        comp_name: &StringId,
        storage: &Storage,
        location: &LocationInfo,
    ) -> (r: CommandResult)
        ensures
            self.ran(
                old(call_stack)@,
                old(registry)@,
                storage@,
                comp_name@,
                *location,
                final(call_stack)@,
                final(registry)@,
                r,
            ),
    {
        let idx = (comp_name.clone(), self.source.clone());
        let list = match storage.get_var(&idx, None) {
            Some(v) => v,
            None => {
                return error_result(
                    location,
                    ErrorKind::FailedGettingVariable(self.source.to_string()),
                );
            },
        };
        let len = match list_length(list) {
            Some(n) => n,
            None => {
                return error_result(
                    location,
                    ErrorKind::FailedGettingVariable(self.source.to_string()),
                );
            },
        };
        let again = is_reentry(call_stack, FrameKind::ForIn, self.start_line);
        let round = if again {
            call_stack[call_stack.len() - 1].iteration
        } else {
            0
        };
        if round < len {
            if !again {
                call_stack.push(CallInfo::new(FrameKind::ForIn, self.start_line, self.end_line));
            }
            registry.set(self.target.clone(), list_get(list, round));
            CommandResult::Continue
        } else {
            if again {
                call_stack.pop();
            }
            CommandResult::JumpToLine(after(self.end_line))
        }
    }
}

/// The component that a command in a component block belongs to: that of
/// the block, where the top frame is one, with the line at which the logic
/// of that component begins.
pub open spec fn block_owner(stack: Seq<CallInfo>) -> Option<(StringId, usize)> {
    if stack.len() > 0 && stack.last().kind == FrameKind::Component && stack.last().name is Some {
        Some((stack.last().name->0, line_after(stack.last().start_line)))
    } else {
        None
    }
}

/// The component that a command in a component block belongs to.
pub fn owner_of(call_stack: &Vec<CallInfo>) -> (r: Option<(StringId, usize)>)
    ensures
        r == block_owner(call_stack@),
{
    let n = call_stack.len();
    if n > 0 && call_stack[n - 1].kind == FrameKind::Component {
        match &call_stack[n - 1].name {
            Some(name) => Some((name.clone(), after(call_stack[n - 1].start_line))),
            None => None,
        }
    } else {
        None
    }
}

impl State {
    /// The state as it is handed to the central authority: with the
    /// component it belongs to, which is that of the component block it
    /// stands in or else the component at hand, and the line at which the
    /// logic of that component begins.
    pub open spec fn placed(self, stack: Seq<CallInfo>, comp: StringId) -> State {
        match block_owner(stack) {
            Some(o) => State { comp: Some(o.0), offset: o.1, ..self },
            None => State { comp: Some(comp), offset: 0, ..self },
        }
    }

    /// Executes the command: the state is handed to the central authority
    /// to be registered, and execution jumps behind the block.
    pub fn execute_loc(
        &self,
        call_stack: &Vec<CallInfo>,
        ent_id: &EntityId,
        comp_name: &StringId,
        line: usize,
    ) -> (r: Vec<CommandResult>)
        ensures
            r@ == seq![
                CommandResult::ExecCentralExt(
                    CentralRemoteCommand::State(self.placed(call_stack@, *comp_name)),
                ),
                CommandResult::JumpToLine(line_after(self.end_line)),
            ],
    {
        let (comp, offset) = match owner_of(call_stack) {
            Some(o) => o,
            None => (comp_name.clone(), 0),
        };
        let placed = State {
            comp: Some(comp),
            name: self.name.clone(),
            start_line: self.start_line,
            end_line: self.end_line,
            offset,
        };
        let mut out: Vec<CommandResult> = Vec::new();
        out.push(CommandResult::ExecCentralExt(CentralRemoteCommand::State(placed)));
        out.push(CommandResult::JumpToLine(after(self.end_line)));
        out
    }
}

/// The frame of a component block.
pub open spec fn component_frame(name: StringId, start_line: usize, end_line: usize) -> CallInfo {
    CallInfo {
        kind: FrameKind::Component,
        start_line,
        end_line,
        return_line: 0,
        iteration: 0,
        name: Some(name),
    }
}

impl ComponentBlock {
    /// Executes the command: the component is handed to the central
    /// authority to be registered, a frame for the block is pushed, and
    /// execution goes on inside the block.
    pub fn execute_loc(
        &self,
        call_stack: &mut Vec<CallInfo>,
        ent_id: &EntityId,
        comp_name: &StringId,
        line: usize,
    ) -> (r: Vec<CommandResult>)
        ensures
            final(call_stack)@ == old(call_stack)@.push(
                component_frame(self.name, self.start_line, self.end_line),
            ),
            r@ == seq![
                CommandResult::ExecCentralExt(CentralRemoteCommand::Component(*self)),
                CommandResult::Continue,
            ],
    {
        call_stack.push(
            CallInfo {
                kind: FrameKind::Component,
                start_line: self.start_line,
                end_line: self.end_line,
                return_line: 0,
                iteration: 0,
                name: Some(self.name.clone()),
            },
        );
        let mut out: Vec<CommandResult> = Vec::new();
        out.push(CommandResult::ExecCentralExt(CentralRemoteCommand::Component(self.clone())));
        out.push(CommandResult::Continue);
        out
    }
}

} // verus!
