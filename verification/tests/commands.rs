use outcome_core::machine::cmd::flow::{find_else, find_end};
use outcome_core::machine::cmd::set::{SetSource, SetTarget};
use outcome_core::machine::cmd::sim::SimAction;
use outcome_core::machine::cmd::print::PrintPart;
use outcome_core::machine::cmd::eval::{ArithOp, Atom, Expr};
use outcome_core::machine::cmd::{
    Command, CommandResult, Detach, ExtCommand, Goto, Invoke, Jump, JumpTarget, Spawn,
};
use outcome_core::machine::cmd::get_set::Get;
use outcome_core::address::Address;
use outcome_core::machine::error::ErrorKind;
use outcome_core::machine::{CommandPrototype, LocationInfo};
use outcome_core::string::new_truncate;
use outcome_core::text::chars_of;
use outcome_core::var::{Var, VarType};

fn proto(line: &str) -> CommandPrototype {
    let mut words = line.split_whitespace().map(|w| w.to_string());
    let name = words.next();
    let arguments: Vec<String> = words.collect();
    CommandPrototype { name, arguments: Some(arguments) }
}

fn program(lines: &[&str]) -> Vec<CommandPrototype> {
    lines.iter().map(|l| proto(l)).collect()
}

fn at(line: usize) -> LocationInfo {
    LocationInfo::at(&new_truncate("comp"), line)
}

fn build(lines: &[&str], line: usize) -> Result<Command, outcome_core::machine::error::Error> {
    let p = program(lines);
    Command::from_prototype(&p[line], &at(line), &p)
}

fn args(words: &[&str]) -> Vec<String> {
    words.iter().map(|w| w.to_string()).collect()
}

#[test]
fn command_result_from_text() {
    assert_eq!(CommandResult::from_str("ok"), Some(CommandResult::Continue));
    assert_eq!(CommandResult::from_str("Ok"), Some(CommandResult::Continue));
    assert_eq!(CommandResult::from_str("OK"), Some(CommandResult::Continue));
    assert_eq!(CommandResult::from_str("continue"), Some(CommandResult::Continue));
    assert_eq!(CommandResult::from_str("break"), Some(CommandResult::Break));
    assert_eq!(CommandResult::from_str("jump.12"), Some(CommandResult::JumpToLine(12)));
    assert_eq!(CommandResult::from_str("jump.0"), Some(CommandResult::JumpToLine(0)));
    assert_eq!(CommandResult::from_str("jump."), None);
    assert_eq!(CommandResult::from_str("jump.x"), None);
    assert_eq!(CommandResult::from_str("oK"), None);
    assert_eq!(CommandResult::from_str(""), None);
}

#[test]
fn prototype_without_name_is_an_error() {
    let p = CommandPrototype { name: None, arguments: None };
    let r = Command::from_prototype(&p, &at(3), &vec![]);
    let e = r.unwrap_err();
    assert_eq!(e.kind, ErrorKind::NoCommandPresent);
    assert_eq!(e.location, at(3));
}

#[test]
fn unknown_command_is_an_error() {
    let e = build(&["frobnicate x"], 0).unwrap_err();
    assert_eq!(e.kind, ErrorKind::UnknownCommand("frobnicate".to_string()));
    assert_eq!(e.location, at(0));
}

#[test]
fn prototype_without_arguments_counts_as_empty() {
    let p = CommandPrototype { name: Some("end".to_string()), arguments: None };
    assert!(matches!(Command::from_prototype(&p, &at(0), &vec![]), Ok(Command::End(_))));
    let p = CommandPrototype { name: Some("goto".to_string()), arguments: None };
    let e = Command::from_prototype(&p, &at(0), &vec![]).unwrap_err();
    assert!(matches!(e.kind, ErrorKind::InvalidCommandBody(_)));
}

#[test]
fn from_prototype_is_deterministic() {
    let lines = ["if a < 3", "set a eval a+1", "else", "print {a} done", "end", "spawn mob -o int:x"];
    for n in 0..lines.len() {
        assert_eq!(build(&lines, n), build(&lines, n));
    }
}

#[test]
fn goto_and_jump() {
    match build(&["goto idle"], 0).unwrap() {
        Command::Goto(g) => assert_eq!(g.target_state.as_str(), "idle"),
        other => panic!("{:?}", other),
    }
    assert_eq!(Jump::new(args(&["7"])).unwrap().target, JumpTarget::Line(7));
    assert_eq!(Jump::new(args(&["65535"])).unwrap().target, JumpTarget::Line(65535));
    assert_eq!(
        Jump::new(args(&["65536"])).unwrap().target,
        JumpTarget::Tag(new_truncate("65536"))
    );
    assert_eq!(Jump::new(args(&["@loop"])).unwrap().target, JumpTarget::Tag(new_truncate("loop")));
    assert_eq!(Jump::new(args(&["loop"])).unwrap().target, JumpTarget::Tag(new_truncate("loop")));
    assert!(matches!(
        Jump::new(vec![]).unwrap_err().kind,
        ErrorKind::InvalidCommandBody(_)
    ));
    assert!(matches!(
        Goto::new(vec![]).unwrap_err().kind,
        ErrorKind::InvalidCommandBody(_)
    ));
}

#[test]
fn jump_executes_to_its_target() {
    let line = Jump::new(args(&["7"])).unwrap();
    assert_eq!(line.execute_loc(), CommandResult::JumpToLine(7));
    let tag = Jump::new(args(&["@t"])).unwrap();
    assert_eq!(tag.execute_loc(), CommandResult::JumpToTag(new_truncate("t")));
    let goto = Goto::new(args(&["idle"])).unwrap();
    let mut state = new_truncate("main");
    assert_eq!(goto.execute_loc(&mut state), CommandResult::Continue);
    assert_eq!(state.as_str(), "idle");
}

#[test]
fn invoke_takes_every_argument_as_an_event() {
    let i = Invoke::new(args(&["a", "b", "a"])).unwrap();
    let names: Vec<&str> = i.events.iter().map(|e| e.as_str()).collect();
    assert_eq!(names, vec!["a", "b", "a"]);
    assert!(Invoke::new(vec![]).unwrap().events.is_empty());
}

#[test]
fn spawn_without_options() {
    let s = Spawn::new(args(&[]), &at(0)).unwrap();
    assert_eq!(s, Spawn { prefab: None, spawn_id: None, out: None });
    let s = Spawn::new(args(&["mob"]), &at(0)).unwrap();
    assert_eq!(s.prefab, Some(new_truncate("mob")));
    assert_eq!(s.spawn_id, None);
    let s = Spawn::new(args(&["mob", "bob"]), &at(0)).unwrap();
    assert_eq!(s.prefab, Some(new_truncate("mob")));
    assert_eq!(s.spawn_id, Some(new_truncate("bob")));
    assert_eq!(s.out, None);
}

#[test]
fn spawn_with_out_option() {
    let s = Spawn::new(args(&["mob", "--out", "self:sys:int:last_id"]), &at(0)).unwrap();
    assert_eq!(s.prefab, Some(new_truncate("mob")));
    let out = s.out.unwrap();
    assert_eq!(out.comp, Some(new_truncate("sys")));
    assert_eq!(out.var_type, VarType::Int);
    assert_eq!(out.var_id.as_str(), "last_id");
    let s = Spawn::new(args(&["mob", "-o", "int:id"]), &at(0)).unwrap();
    assert_eq!(s.out.unwrap().var_id.as_str(), "id");
    let s = Spawn::new(args(&["mob", "--out=int:id"]), &at(0)).unwrap();
    assert_eq!(s.out.unwrap().var_id.as_str(), "id");
}

#[test]
fn spawn_errors() {
    let e = Spawn::new(args(&["a", "b", "c"]), &at(4)).unwrap_err();
    assert_eq!(
        e.kind,
        ErrorKind::InvalidCommandBody("can't accept more than 2 arguments".to_string())
    );
    assert_eq!(e.location, at(4));
    let e = Spawn::new(args(&["mob", "--unknown"]), &at(4)).unwrap_err();
    assert_eq!(e.kind, ErrorKind::ParseError("Unrecognized option: 'unknown'".to_string()));
    let e = Spawn::new(args(&["mob", "--out"]), &at(4)).unwrap_err();
    assert_eq!(e.kind, ErrorKind::ParseError("Argument to option 'out' missing".to_string()));
    let e = Spawn::new(args(&["mob", "--out", "nonsense"]), &at(4)).unwrap_err();
    assert_eq!(e.kind, ErrorKind::ParseError("nonsense".to_string()));
    let e = Spawn::new(args(&["mob", "-o", "int:a", "-o", "int:b"]), &at(4)).unwrap_err();
    assert_eq!(e.kind, ErrorKind::ParseError("Option 'out' given more than once".to_string()));
}

#[test]
fn spawn_from_parsed_options() {
    let s = Spawn::from_parsed(Ok((None, vec!["mob".to_string()])), &at(0)).unwrap();
    assert_eq!(s.prefab, Some(new_truncate("mob")));
    assert_eq!(s.spawn_id, None);
    let s = Spawn::from_parsed(
        Ok((Some("int:id".to_string()), vec!["mob".to_string(), "bob".to_string()])),
        &at(0),
    )
    .unwrap();
    assert_eq!(s.prefab, Some(new_truncate("mob")));
    assert_eq!(s.spawn_id, Some(new_truncate("bob")));
    assert_eq!(s.out.unwrap().var_id.as_str(), "id");
    let e = Spawn::from_parsed(Err("refused".to_string()), &at(1)).unwrap_err();
    assert_eq!(e.kind, ErrorKind::ParseError("refused".to_string()));
    assert_eq!(e.location, at(1));
    let e = Spawn::from_parsed(
        Ok((None, vec!["a".to_string(), "b".to_string(), "c".to_string()])),
        &at(1),
    )
    .unwrap_err();
    assert_eq!(
        e.kind,
        ErrorKind::InvalidCommandBody("can't accept more than 2 arguments".to_string())
    );
}

#[test]
fn spawn_takes_prefab_and_name_from_the_free_arguments() {
    let s = Spawn::new(args(&["--out", "sys:int:last_id", "mob"]), &at(0)).unwrap();
    assert_eq!(s.prefab, Some(new_truncate("mob")));
    assert_eq!(s.spawn_id, None);
    let out = s.out.unwrap();
    assert_eq!(out.comp, Some(new_truncate("sys")));
    assert_eq!(out.var_type, VarType::Int);
    assert_eq!(out.var_id.as_str(), "last_id");
    let s = Spawn::new(args(&["-o", "int:id", "mob", "bob"]), &at(0)).unwrap();
    assert_eq!(s.prefab, Some(new_truncate("mob")));
    assert_eq!(s.spawn_id, Some(new_truncate("bob")));
    let s = Spawn::new(args(&["mob", "--out=int:id", "bob"]), &at(0)).unwrap();
    assert_eq!(s.prefab, Some(new_truncate("mob")));
    assert_eq!(s.spawn_id, Some(new_truncate("bob")));
    assert_eq!(s.out.unwrap().var_id.as_str(), "id");
}

#[test]
fn every_error_of_a_prototype_carries_its_place() {
    let cases: Vec<(&str, ErrorKind)> = vec![
        ("goto", ErrorKind::InvalidCommandBody("a state is expected".to_string())),
        ("jump", ErrorKind::InvalidCommandBody("a target is expected".to_string())),
        ("range r 0 x", ErrorKind::ParseError("the bounds are integers".to_string())),
        ("range r 0", ErrorKind::InvalidCommandBody("a list and two bounds are expected".to_string())),
        ("eval x", ErrorKind::InvalidCommandBody("a target and an expression are expected".to_string())),
        ("sim dance", ErrorKind::InvalidCommandBody("stop, pause or resume is expected".to_string())),
        ("set x", ErrorKind::InvalidCommandBody("a target and a source are expected".to_string())),
        ("set x =", ErrorKind::InvalidCommandBody("a target and a source are expected".to_string())),
        ("call", ErrorKind::InvalidCommandBody("a name is expected".to_string())),
        ("state", ErrorKind::InvalidCommandBody("a name is expected".to_string())),
        ("state s", ErrorKind::InvalidCommandBody("the block is not closed".to_string())),
        ("if", ErrorKind::ParseError("a condition is expected".to_string())),
        ("loop x y", ErrorKind::ParseError("a number of rounds or a condition is expected".to_string())),
        ("loop 99999999999999999999999", ErrorKind::ParseError("a number of rounds or a condition is expected".to_string())),
        ("for x over y", ErrorKind::InvalidCommandBody("a variable, `in` and a list are expected".to_string())),
        ("var", ErrorKind::InvalidCommandBody("an address is expected".to_string())),
        ("var nonsense", ErrorKind::ParseError("nonsense".to_string())),
        ("extend a", ErrorKind::InvalidCommandBody("two components are expected".to_string())),
        ("event", ErrorKind::InvalidCommandBody("a name is expected".to_string())),
        ("nonsense", ErrorKind::UnknownCommand("nonsense".to_string())),
    ];
    for (line, kind) in cases {
        let lines = ["print a", "print b", line];
        let e = build(&lines, 2).unwrap_err();
        assert_eq!(e.kind, kind, "{}", line);
        assert_eq!(e.location, at(2), "{}", line);
    }
}

#[test]
fn set_forms() {
    match build(&["set x 1"], 0).unwrap() {
        Command::Assign(c) => {
            assert_eq!(
                c.target,
                SetTarget { entity: None, comp: None, var_type: None, var_id: new_truncate("x") }
            );
            assert_eq!(c.source, SetSource::Literal("1".to_string()));
        }
        other => panic!("{:?}", other),
    }
    match build(&["set str:greeting = hello big world"], 0).unwrap() {
        Command::Assign(c) => {
            assert_eq!(c.target.var_type, Some(VarType::Str));
            assert_eq!(c.source, SetSource::Literal("hello big world".to_string()));
        }
        other => panic!("{:?}", other),
    }
    match build(&["set ctr:int:n eval n + 1"], 0).unwrap() {
        Command::Assign(c) => {
            assert_eq!(c.target.comp, Some(new_truncate("ctr")));
            assert_eq!(
                c.source,
                SetSource::Eval(Expr {
                    first: Atom::Var(new_truncate("n")),
                    rest: vec![(ArithOp::Add, Atom::Num(1))],
                })
            );
        }
        other => panic!("{:?}", other),
    }
    match build(&["set int:a int:b"], 0).unwrap() {
        Command::SetIntIntAddr(c) => {
            assert_eq!(c.target.var_id.as_str(), "a");
            assert_eq!(c.source.var_id.as_str(), "b");
            assert_eq!(c.source.var_type, VarType::Int);
        }
        other => panic!("{:?}", other),
    }
    match build(&["set str:a ctr:str:b"], 0).unwrap() {
        Command::Assign(c) => match c.source {
            SetSource::Addr(a) => {
                assert_eq!(a.comp, Some(new_truncate("ctr")));
                assert_eq!(a.var_type, Some(VarType::Str));
            }
            other => panic!("{:?}", other),
        },
        other => panic!("{:?}", other),
    }
    match build(&["set mob7:body:int:hp 5"], 0).unwrap() {
        Command::Assign(c) => assert_eq!(c.target.entity, Some(new_truncate("mob7"))),
        other => panic!("{:?}", other),
    }
}

#[test]
fn set_errors() {
    assert!(matches!(build(&["set"], 0).unwrap_err().kind, ErrorKind::InvalidCommandBody(_)));
    assert!(matches!(build(&["set x"], 0).unwrap_err().kind, ErrorKind::InvalidCommandBody(_)));
    assert!(matches!(build(&["set x ="], 0).unwrap_err().kind, ErrorKind::InvalidCommandBody(_)));
    assert_eq!(
        build(&["set a:b:c:d:e 1"], 0).unwrap_err().kind,
        ErrorKind::ParseError("a:b:c:d:e".to_string())
    );
    assert!(matches!(build(&["set x eval 1+"], 0).unwrap_err().kind, ErrorKind::ParseError(_)));
    assert!(matches!(build(&["set x eval"], 0).unwrap_err().kind, ErrorKind::ParseError(_)));
}

#[test]
fn eval_command() {
    match build(&["eval total a*b+c"], 0).unwrap() {
        Command::Eval(c) => {
            assert_eq!(c.target.var_id.as_str(), "total");
            assert_eq!(c.expr.rest.len(), 2);
            assert_eq!(c.expr.rest[0].0, ArithOp::Mul);
            assert_eq!(c.expr.rest[1].0, ArithOp::Add);
        }
        other => panic!("{:?}", other),
    }
    assert!(matches!(build(&["eval x"], 0).unwrap_err().kind, ErrorKind::InvalidCommandBody(_)));
    assert!(matches!(build(&["eval x 1++2"], 0).unwrap_err().kind, ErrorKind::ParseError(_)));
}

#[test]
fn expression_parsing() {
    let e = Expr::from_chars(&chars_of("12+x_1*3-4/2%5")).unwrap();
    assert_eq!(e.first, Atom::Num(12));
    let ops: Vec<ArithOp> = e.rest.iter().map(|p| p.0).collect();
    assert_eq!(
        ops,
        vec![ArithOp::Add, ArithOp::Mul, ArithOp::Sub, ArithOp::Div, ArithOp::Rem]
    );
    assert_eq!(e.rest[0].1, Atom::Var(new_truncate("x_1")));
    assert!(Expr::from_chars(&chars_of("")).is_none());
    assert!(Expr::from_chars(&chars_of("+1")).is_none());
    assert!(Expr::from_chars(&chars_of("a b")).is_none());
    assert!(Expr::from_chars(&chars_of("(1)")).is_none());
    assert!(Expr::from_chars(&chars_of("99999999999999999999")).is_none());
    assert_eq!(Expr::from_chars(&chars_of("7")).unwrap().rest.len(), 0);
}

#[test]
fn print_pieces() {
    match build(&["print hp: {int:hp} of {max}"], 0).unwrap() {
        Command::PrintFmt(p) => {
            assert_eq!(p.parts.len(), 4);
            assert_eq!(p.parts[0], PrintPart::Text("hp:".to_string()));
            assert!(matches!(&p.parts[1], PrintPart::Value(t) if t.var_type == Some(VarType::Int)));
            assert_eq!(p.parts[2], PrintPart::Text("of".to_string()));
            assert!(matches!(&p.parts[3], PrintPart::Value(t) if t.var_id.as_str() == "max"));
        }
        other => panic!("{:?}", other),
    }
    match build(&["print {a:b:c:d:e} {}"], 0).unwrap() {
        Command::PrintFmt(p) => {
            assert_eq!(p.parts[0], PrintPart::Text("{a:b:c:d:e}".to_string()));
            assert!(matches!(&p.parts[1], PrintPart::Value(t) if t.var_id.as_str() == ""));
        }
        other => panic!("{:?}", other),
    }
}

#[test]
fn range_command() {
    match build(&["range r 0 5"], 0).unwrap() {
        Command::Range(r) => {
            assert_eq!(r.target.as_str(), "r");
            assert_eq!((r.from, r.to), (0, 5));
        }
        other => panic!("{:?}", other),
    }
    match build(&["range r -3 +3"], 0).unwrap() {
        Command::Range(r) => assert_eq!((r.from, r.to), (-3, 3)),
        other => panic!("{:?}", other),
    }
    assert!(matches!(build(&["range r 0"], 0).unwrap_err().kind, ErrorKind::InvalidCommandBody(_)));
    assert!(matches!(build(&["range r 0 x"], 0).unwrap_err().kind, ErrorKind::ParseError(_)));
}

#[test]
fn sim_control_command() {
    assert!(matches!(build(&["sim stop"], 0).unwrap(), Command::Sim(c) if c.action == SimAction::Stop));
    assert!(matches!(build(&["sim pause"], 0).unwrap(), Command::Sim(c) if c.action == SimAction::Pause));
    assert!(matches!(build(&["sim resume"], 0).unwrap(), Command::Sim(c) if c.action == SimAction::Resume));
    assert!(matches!(build(&["sim explode"], 0).unwrap_err().kind, ErrorKind::InvalidCommandBody(_)));
    assert!(matches!(build(&["sim"], 0).unwrap_err().kind, ErrorKind::InvalidCommandBody(_)));
}

#[test]
fn registration_commands() {
    assert!(matches!(build(&["event tick"], 0).unwrap(), Command::RegisterEvent(e) if e.name.as_str() == "tick"));
    assert!(matches!(build(&["event"], 0).unwrap_err().kind, ErrorKind::InvalidCommandBody(_)));
    for head in ["entity", "prefab"] {
        let line = format!("{} mob body mind", head);
        match build(&[line.as_str()], 0).unwrap() {
            Command::RegisterEntityPrefab(p) => {
                assert_eq!(p.name.as_str(), "mob");
                let comps: Vec<&str> = p.components.iter().map(|c| c.as_str()).collect();
                assert_eq!(comps, vec!["body", "mind"]);
            }
            other => panic!("{:?}", other),
        }
    }
    for head in ["trigger", "triggered_by"] {
        let line = format!("{} tick", head);
        match build(&[line.as_str()], 0).unwrap() {
            Command::RegisterTrigger(t) => {
                assert_eq!(t.name.as_str(), "tick");
                assert_eq!(t.comp, None);
            }
            other => panic!("{:?}", other),
        }
    }
    match build(&["trigger tick ctr"], 0).unwrap() {
        Command::RegisterTrigger(t) => assert_eq!(t.comp, Some(new_truncate("ctr"))),
        other => panic!("{:?}", other),
    }
    match build(&["var int:n 5"], 0).unwrap() {
        Command::RegisterVar(v) => {
            assert_eq!(v.comp, None);
            assert_eq!(v.var_type, VarType::Int);
            assert_eq!(v.var_id.as_str(), "n");
            assert_eq!(v.default, Some(Var::Int(5)));
        }
        other => panic!("{:?}", other),
    }
    match build(&["var ctr:str:label some text"], 0).unwrap() {
        Command::RegisterVar(v) => {
            assert_eq!(v.comp, Some(new_truncate("ctr")));
            assert_eq!(v.default, Some(Var::Str("some text".to_string())));
        }
        other => panic!("{:?}", other),
    }
    match build(&["var bool:on"], 0).unwrap() {
        Command::RegisterVar(v) => assert_eq!(v.default, None),
        other => panic!("{:?}", other),
    }
    assert!(matches!(build(&["var int:n five"], 0).unwrap_err().kind, ErrorKind::ParseError(_)));
    assert_eq!(build(&["var n"], 0).unwrap_err().kind, ErrorKind::ParseError("n".to_string()));
    assert!(matches!(build(&["var float:f 1.5"], 0).unwrap_err().kind, ErrorKind::ParseError(_)));
    assert!(matches!(build(&["var"], 0).unwrap_err().kind, ErrorKind::InvalidCommandBody(_)));
    match build(&["extend a b"], 0).unwrap() {
        Command::Extend(e) => {
            assert_eq!(e.target.as_str(), "a");
            assert_eq!(e.source.as_str(), "b");
        }
        other => panic!("{:?}", other),
    }
    assert!(matches!(build(&["extend a"], 0).unwrap_err().kind, ErrorKind::InvalidCommandBody(_)));
}

#[test]
fn blocks_find_their_end() {
    let lines = [
        "component ctr", // 0
        "state main",    // 1
        "if a",          // 2
        "loop 3",        // 3
        "end",           // 4
        "else",          // 5
        "for i in r",    // 6
        "end",           // 7
        "end",           // 8
        "end",           // 9
        "end",           // 10
        "proc p",        // 11
        "end",           // 12
    ];
    let p = program(&lines);
    assert_eq!(find_end(&p, 1), Some(10));
    assert_eq!(find_end(&p, 2), Some(9));
    assert_eq!(find_end(&p, 3), Some(8));
    assert_eq!(find_end(&p, 4), Some(4));
    assert_eq!(find_end(&p, 7), Some(7));
    assert_eq!(find_end(&p, 13), None);
    assert_eq!(find_else(&p, 3), Some(5));
    assert_eq!(find_else(&p, 4), None);
    assert_eq!(find_else(&p, 5), Some(5));
    assert_eq!(find_else(&p, 6), None);
    match build(&lines, 0).unwrap() {
        Command::RegisterComponent(c) => {
            assert_eq!(c.name.as_str(), "ctr");
            assert_eq!((c.start_line, c.end_line), (0, 10));
        }
        other => panic!("{:?}", other),
    }
    match build(&lines, 1).unwrap() {
        Command::State(c) => assert_eq!((c.start_line, c.end_line), (1, 9)),
        other => panic!("{:?}", other),
    }
    match build(&lines, 2).unwrap() {
        Command::If(c) => {
            assert_eq!((c.start_line, c.end_line), (2, 8));
            assert_eq!(c.else_line, Some(5));
        }
        other => panic!("{:?}", other),
    }
    match build(&lines, 3).unwrap() {
        Command::Loop(c) => {
            assert_eq!((c.start_line, c.end_line), (3, 4));
            assert_eq!(c.times, Some(3));
            assert_eq!(c.cond, None);
        }
        other => panic!("{:?}", other),
    }
    match build(&lines, 6).unwrap() {
        Command::ForIn(c) => {
            assert_eq!((c.start_line, c.end_line), (6, 7));
            assert_eq!(c.target.as_str(), "i");
            assert_eq!(c.source.as_str(), "r");
        }
        other => panic!("{:?}", other),
    }
    match build(&lines, 11).unwrap() {
        Command::Procedure(c) => {
            assert_eq!(c.name.as_str(), "p");
            assert_eq!((c.start_line, c.end_line), (12, 12));
        }
        other => panic!("{:?}", other),
    }
    assert!(matches!(build(&lines, 5).unwrap(), Command::Else(_)));
    assert!(matches!(build(&lines, 4).unwrap(), Command::End(_)));
}

#[test]
fn block_commands_need_their_end() {
    for line in ["state s", "component c", "comp c", "if a", "proc p", "procedure p", "for i in r", "loop", "while a"] {
        let e = build(&[line, "set x 1"], 0).unwrap_err();
        assert!(matches!(e.kind, ErrorKind::InvalidCommandBody(_)), "{}", line);
        assert_eq!(e.location, at(0));
    }
    assert!(matches!(build(&["state", "end"], 0).unwrap_err().kind, ErrorKind::InvalidCommandBody(_)));
    assert!(matches!(build(&["if a ? b", "end"], 0).unwrap_err().kind, ErrorKind::ParseError(_)));
    assert!(matches!(build(&["if", "end"], 0).unwrap_err().kind, ErrorKind::ParseError(_)));
    assert!(matches!(build(&["for i r", "end"], 0).unwrap_err().kind, ErrorKind::InvalidCommandBody(_)));
    assert!(matches!(build(&["while a <", "end"], 0).unwrap_err().kind, ErrorKind::ParseError(_)));
    assert!(matches!(build(&["call"], 0).unwrap_err().kind, ErrorKind::InvalidCommandBody(_)));
    assert!(matches!(build(&["call p"], 0).unwrap(), Command::Call(c) if c.proc_name.as_str() == "p"));
    assert!(matches!(build(&["break"], 0).unwrap(), Command::Break(_)));
    assert!(matches!(build(&["while a < 3", "end"], 0).unwrap(), Command::Loop(l) if l.cond.is_some() && l.times.is_none()));
    assert!(matches!(build(&["loop", "end"], 0).unwrap(), Command::Loop(l) if l.cond.is_none() && l.times.is_none()));
}

#[test]
fn command_without_line_is_not_run() {
    let cmd = build(&["goto idle"], 0).unwrap();
    let mut storage = outcome_core::entity::storage::Storage::new();
    let mut insta = outcome_core::entity::EntityNonSer { output: vec![] };
    let mut state = new_truncate("main");
    let mut stack = vec![];
    let mut registry = outcome_core::machine::Registry::new();
    let model = outcome_core::model::SimModel::from_scenario(empty_scenario(), &vec![]).unwrap();
    let r = cmd.execute(
        &mut storage,
        &mut insta,
        &mut state,
        &mut stack,
        &mut registry,
        &new_truncate("comp"),
        &0,
        &model,
        &LocationInfo::empty(),
    );
    assert_eq!(r.len(), 1);
    assert!(matches!(&r[0], CommandResult::Error(e) if matches!(e.kind, ErrorKind::Other(_))));
    assert_eq!(state.as_str(), "main");
    let r = cmd.execute(
        &mut storage,
        &mut insta,
        &mut state,
        &mut stack,
        &mut registry,
        &new_truncate("comp"),
        &0,
        &model,
        &at(0),
    );
    assert_eq!(r, vec![CommandResult::Continue]);
    assert_eq!(state.as_str(), "idle");
}

fn empty_scenario() -> outcome_core::model::Scenario {
    outcome_core::model::Scenario {
        path: String::new(),
        manifest: outcome_core::model::ScenarioManifest {
            name: "s".to_string(),
            version: "0.1.0".to_string(),
            engine: "*".to_string(),
            mods: vec![],
            settings: vec![],
            title: None,
            desc: None,
            desc_long: None,
            author: None,
            website: None,
        },
        modules: vec![],
    }
}

#[test]
fn run_with_model_context_does_nothing() {
    let cmd = build(&["event tick"], 0).unwrap();
    let mut model = outcome_core::model::SimModel::from_scenario(empty_scenario(), &vec![]).unwrap();
    let events = model.events.len();
    assert_eq!(cmd.run_with_model_context(&mut model), CommandResult::Continue);
    assert_eq!(model.events.len(), events);
}

#[test]
fn detach_reads_its_address() {
    let d = Detach::from_str("mob:body:int:hp and more").unwrap();
    assert_eq!(d.signature.to_string(), "mob:body:int:hp");
    assert!(matches!(Detach::from_str("nothing").unwrap_err().kind, ErrorKind::ParseError(_)));
}

#[test]
fn ext_command_pre_phase() {
    let mut storage = outcome_core::entity::storage::Storage::new();
    storage.insert("body", "hp", &VarType::Int, Some(Var::Int(9)));
    let get = ExtCommand::Get(Get { source: Address::from_str("mob:body:int:hp").unwrap() });
    let (addr, var) = get.execute_pre(&storage, &new_truncate("mob")).unwrap();
    assert_eq!(addr.to_string(), "mob:body:int:hp");
    assert_eq!(var, Var::Int(9));
    let miss = ExtCommand::Get(Get { source: Address::from_str("mob:body:int:mp").unwrap() });
    assert!(miss.execute_pre(&storage, &new_truncate("mob")).is_none());
    assert_eq!(get.get_type_as_str(), "not implemented");
}

#[test]
fn rebased_commands_move_their_lines() {
    let lines = ["set x 1", "if a", "set x 2", "else", "set x 3", "end", "jump 1"];
    match build(&lines, 1).unwrap().rebased(1, 0).unwrap() {
        Command::If(c) => {
            assert_eq!((c.start_line, c.end_line), (0, 4));
            assert_eq!(c.else_line, Some(2));
        }
        other => panic!("{:?}", other),
    }
    match build(&lines, 1).unwrap().rebased(0, 10).unwrap() {
        Command::If(c) => {
            assert_eq!((c.start_line, c.end_line), (11, 15));
            assert_eq!(c.else_line, Some(13));
        }
        other => panic!("{:?}", other),
    }
    assert!(build(&lines, 1).unwrap().rebased(2, 0).is_none());
    assert_eq!(build(&lines, 6).unwrap().rebased(3, 0), Some(build(&lines, 6).unwrap()));
}
