//! `range <list> <from> <to>`: fills a list variable of the component with
//! the integers from `from` up to, but not including, `to`.

use vstd::prelude::*;
use crate::entity::storage::{Key, Storage};
use crate::machine::cmd::flow::{error_result, fail};
use crate::machine::cmd::CommandResult;
use crate::machine::error::{
    is_body_error, is_missing_error, is_parse_error, ErrorKind, Result,
};
use crate::var::VarView;
use crate::machine::LocationInfo;
use crate::string::{truncated, StringId};
use crate::text::{chars_of, parse_int, parse_signed, texts};
use crate::var::Int;

verus! {

/// `range`: fills a list of integers.
#[derive(Debug, PartialEq)]
pub struct Range {
    pub target: StringId,
    pub from: Int,
    pub to: Int,
}

impl Clone for Range {
    fn clone(&self) -> (r: Self)
        ensures
            r == *self,
    {
        Range { target: self.target.clone(), from: self.from, to: self.to }
    }
}

/// The integer that a text writes, if it fits in an `Int`.
pub open spec fn int_of_text(s: Seq<char>) -> Option<Int> {
    match parse_int(s) {
        Some(v) => if i64::MIN <= v <= i64::MAX {
            Some(v as Int)
        } else {
            None
        },
        None => None,
    }
}

/// The name and the bounds that the arguments of `range` write.
pub open spec fn range_parse(args: Seq<Seq<char>>) -> Option<(Seq<char>, Int, Int)> {
    if args.len() == 3 {
        match (int_of_text(args[1]), int_of_text(args[2])) {
            (Some(from), Some(to)) => Some((truncated(args[0]), from, to)),
            _ => None,
        }
    } else {
        None
    }
}

/// The integers from `from` up to, but not including, `to`.
pub open spec fn int_range(from: Int, to: Int) -> Seq<Int> {
    Seq::new(
        if to > from {
            (to - from) as nat
        } else {
            0nat
        },
        |i: int| (from + i) as Int,
    )
}

impl Range {
    /// What `new` returns for given arguments.
    pub open spec fn built(args: Seq<String>, r: Result<Range>) -> bool {
        match range_parse(texts(args)) {
            Some(p) => r matches Ok(c) && c.target@ == p.0 && c.from == p.1 && c.to == p.2,
            None => r matches Err(e) && (if args.len() != 3 {
                is_body_error(
                    e,
                    LocationInfo { comp_name: None, line: None },
                    "a list and two bounds are expected"@,
                )
            } else {
                is_parse_error(
                    e,
                    LocationInfo { comp_name: None, line: None },
                    "the bounds are integers"@,
                )
            }),
        }
    }

    /// Builds the command from the name of a list and two integers.
    pub fn new(args: Vec<String>) -> (r: Result<Range>)
        ensures
            Range::built(args@, r),
    {
        let location = LocationInfo::empty();
        if args.len() != 3 {
            return fail(
                &location,
                ErrorKind::InvalidCommandBody("a list and two bounds are expected".to_owned()),
            );
        }
        let from = parse_signed(&chars_of(args[1].as_str()));
        let to = parse_signed(&chars_of(args[2].as_str()));
        match (from, to) {
            (Some(from), Some(to)) => Ok(
                Range { target: StringId::new_truncate(args[0].as_str()), from, to },
            ),
            _ => fail(&location, ErrorKind::ParseError("the bounds are integers".to_owned())),
        }
    }
}


impl Range {
    /// What `execute_loc` does: the list of the integers from `from` up
    /// to, but not including, `to` is stored under the name of the target,
    /// as a variable of the component at hand, and execution goes on. A
    /// variable of another kind under that name is not overwritten: the
    /// store stays as it is and the result is an error at the place of the
    /// command.
    pub open spec fn ran(
        self,
        store: Map<Key, VarView>,
        comp: Seq<char>,
        location: LocationInfo,
        after_store: Map<Key, VarView>,
        r: CommandResult,
    ) -> bool {
        let key = (comp, self.target@);
        if store.contains_key(key) && !(store[key] is IntList) {
            after_store == store && (r matches CommandResult::Error(e) && is_missing_error(
                e,
                location,
                self.target@,
            ))
        } else {
            r == CommandResult::Continue && after_store == store.insert(
                key,
                VarView::IntList(int_range(self.from, self.to)),
            )
        }
    }

    /// Executes the command.
    pub fn execute_loc(&self, storage: &mut Storage, comp_name: &StringId, location: &LocationInfo) -> (r:
        CommandResult)
        ensures
            self.ran(old(storage)@, comp_name@, *location, final(storage)@, r),
    {
        let key = (comp_name.clone(), self.target.clone());
        let other = match storage.get_var(&key, None) {
            Some(v) => !v.is_int_list(),
            None => false,
        };
        if other {
            return error_result(location, ErrorKind::FailedGettingVariable(self.target.to_string()));
        }
        let mut list: Vec<Int> = Vec::new();
        let mut i: Int = self.from;
        while i < self.to
            invariant
                self.from <= i,
                self.from < self.to ==> i <= self.to,
                self.from >= self.to ==> i == self.from,
                list@.len() == i - self.from,
                forall|j: int| 0 <= j < list@.len() ==> list@[j] == self.from + j,
            decreases self.to - i,
        {
            list.push(i);
            i += 1;
        }
        proof {
            assert(list@ =~= int_range(self.from, self.to));
        }
        storage.insert_int_list(&key, list);
        CommandResult::Continue
    }
}

} // verus!
