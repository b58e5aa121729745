use outcome_core::address::{Address, LocalAddress};
use outcome_core::machine::error::ErrorKind;
use outcome_core::string::{new_truncate, StringId, STRING_ID_SIZE};
use outcome_core::text::{int_to_string, nat_to_string};
use outcome_core::var::{Float, Var, VarType};

#[test]
fn string_id_keeps_short_text() {
    let id = new_truncate("counter");
    assert_eq!(id.as_str(), "counter");
    assert_eq!(id.to_string(), "counter".to_string());
}

#[test]
fn string_id_truncates_at_the_cap() {
    let long = "abcdefghijklmnopqrstuvwxyz0123456789";
    let id = new_truncate(long);
    assert_eq!(STRING_ID_SIZE, 23);
    assert_eq!(id.as_str(), "abcdefghijklmnopqrstuvw");
    assert_eq!(id.as_str().len(), 23);
}

#[test]
fn string_id_exactly_at_the_cap_is_kept() {
    let exact = "abcdefghijklmnopqrstuvw";
    assert_eq!(exact.len(), 23);
    assert_eq!(new_truncate(exact).as_str(), exact);
}

#[test]
fn string_id_cuts_at_a_character_boundary() {
    // 22 bytes of ASCII, then a character of two bytes: it does not fit
    let text = "abcdefghijklmnopqrstuv\u{e9}x";
    let id = new_truncate(text);
    assert_eq!(id.as_str(), "abcdefghijklmnopqrstuv");
    // 21 bytes of ASCII, then the character of two bytes: it fits
    let text = "abcdefghijklmnopqrstu\u{e9}x";
    let id = new_truncate(text);
    assert_eq!(id.as_str(), "abcdefghijklmnopqrstu\u{e9}");
}

#[test]
fn string_id_equality_reflects_truncated_text() {
    let a = new_truncate("abcdefghijklmnopqrstuvwXYZ");
    let b = new_truncate("abcdefghijklmnopqrstuvw123");
    let c = new_truncate("abcdefghijklmnopqrstuvx");
    assert!(a == b);
    assert!(a != c);
    assert!(a.is("abcdefghijklmnopqrstuvw"));
}

#[test]
fn string_id_from_refuses_long_text() {
    assert!(StringId::from("short").is_some());
    assert!(StringId::from("abcdefghijklmnopqrstuvwx").is_none());
    assert_eq!(StringId::new().as_str(), "");
}

#[test]
fn string_id_truncation_is_idempotent() {
    let once = new_truncate("a name that is much too long to be kept");
    let twice = new_truncate(once.as_str());
    assert!(once == twice);
}

#[test]
fn integers_are_written_in_decimal() {
    assert_eq!(int_to_string(0), "0");
    assert_eq!(int_to_string(42), "42");
    assert_eq!(int_to_string(-7), "-7");
    assert_eq!(int_to_string(i64::MAX), "9223372036854775807");
    assert_eq!(int_to_string(i64::MIN), "-9223372036854775808");
    assert_eq!(nat_to_string(u64::MAX), "18446744073709551615");
}

#[test]
fn var_new_gives_zero_of_kind() {
    assert_eq!(Var::new(&VarType::Str), Var::Str(String::new()));
    assert_eq!(Var::new(&VarType::Int), Var::Int(0));
    assert_eq!(Var::new(&VarType::Float), Var::Float(Float::from_bits(0)));
    assert_eq!(Var::new(&VarType::Bool), Var::Bool(false));
    assert_eq!(Var::new(&VarType::Byte), Var::Byte(0));
    assert_eq!(Var::new(&VarType::StrList), Var::StrList(vec![]));
    assert_eq!(Var::new(&VarType::IntList), Var::IntList(vec![]));
    assert_eq!(Var::new(&VarType::FloatList), Var::FloatList(vec![]));
    assert_eq!(Var::new(&VarType::BoolList), Var::BoolList(vec![]));
    assert_eq!(Var::new(&VarType::ByteList), Var::ByteList(vec![]));
}

#[test]
fn var_predicates_and_projections() {
    let v = Var::Int(5);
    assert!(v.is_int());
    assert!(!v.is_str());
    assert_eq!(v.as_int(), Some(&5));
    assert_eq!(v.as_str(), None);
    assert_eq!(v.get_type(), VarType::Int);
    let s = Var::Str("x".to_string());
    assert!(s.is_str());
    assert_eq!(s.as_str(), Some(&"x".to_string()));
    assert_eq!(s.as_bool(), None);
    let l = Var::BoolList(vec![true, false]);
    assert!(l.is_bool_list());
    assert_eq!(l.as_bool_list(), Some(&vec![true, false]));
    assert_eq!(l.as_int_list(), None);
    let f = Var::Float(Float::from_bits(1.5f64.to_bits()));
    assert!(f.is_float());
    assert_eq!(f64::from_bits(f.as_float().unwrap().to_bits()), 1.5);
    let b = Var::Byte(9);
    assert!(b.is_byte());
    assert_eq!(b.as_byte(), Some(&9));
}

#[test]
fn var_to_string_is_total() {
    assert_eq!(Var::Str("hello".to_string()).to_string(), "hello");
    assert_eq!(Var::Int(-12).to_string(), "-12");
    assert_eq!(Var::Bool(true).to_string(), "true");
    assert_eq!(Var::Bool(false).to_string(), "false");
    assert_eq!(Var::Byte(255).to_string(), "255");
    assert_eq!(Var::Float(Float::from_bits(7)).to_string(), "7");
    assert_eq!(Var::IntList(vec![1, 2, 3]).to_string(), "[1, 2, 3]");
    assert_eq!(Var::IntList(vec![]).to_string(), "[]");
    assert_eq!(
        Var::StrList(vec!["a".to_string(), "b".to_string()]).to_string(),
        "[a, b]"
    );
    assert_eq!(Var::BoolList(vec![true]).to_string(), "[true]");
    assert_eq!(Var::ByteList(vec![0, 7]).to_string(), "[0, 7]");
    assert_eq!(
        Var::FloatList(vec![Float::from_bits(1), Float::from_bits(2)]).to_string(),
        "[1, 2]"
    );
}

#[test]
fn var_clone_keeps_the_value() {
    let v = Var::StrList(vec!["a".to_string(), "bc".to_string()]);
    assert_eq!(v.clone(), v);
    let w = Var::Float(Float::from_bits(99));
    assert_eq!(w.clone(), w);
}

#[test]
fn var_type_names_round_trip() {
    let kinds = [
        VarType::Str,
        VarType::Int,
        VarType::Float,
        VarType::Bool,
        VarType::Byte,
        VarType::StrList,
        VarType::IntList,
        VarType::FloatList,
        VarType::BoolList,
        VarType::ByteList,
    ];
    for k in kinds.iter() {
        assert_eq!(VarType::from_str(&k.to_str()), Some(*k));
    }
    assert_eq!(VarType::Int.to_str(), "int");
    assert_eq!(VarType::StrList.to_str(), "str_list");
    assert_eq!(VarType::from_str("string"), Some(VarType::Str));
    assert_eq!(VarType::from_str("string_list"), Some(VarType::StrList));
    assert_eq!(VarType::from_str("integer"), None);
}

#[test]
fn address_parses_with_and_without_entity() {
    let a = Address::from_str("ctr:int:n").unwrap();
    assert_eq!(a.entity.as_str(), "self");
    assert_eq!(a.component.as_str(), "ctr");
    assert_eq!(a.var_type, VarType::Int);
    assert_eq!(a.var_id.as_str(), "n");
    assert_eq!(a.to_string(), "self:ctr:int:n");
    let b = Address::from_str("mob7:body:float:mass").unwrap();
    assert_eq!(b.entity.as_str(), "mob7");
    assert_eq!(b.var_type, VarType::Float);
    assert_eq!(b.to_string(), "mob7:body:float:mass");
    let idx = b.storage_index();
    assert_eq!(idx.0.as_str(), "body");
    assert_eq!(idx.1.as_str(), "mass");
}

#[test]
fn address_parse_failures_are_parse_errors() {
    assert_eq!(
        Address::from_str("n"),
        Err(ErrorKind::ParseError("n".to_string()))
    );
    assert_eq!(
        Address::from_str("ctr:number:n"),
        Err(ErrorKind::ParseError("ctr:number:n".to_string()))
    );
    assert_eq!(
        Address::from_str("a:b:int:c:d"),
        Err(ErrorKind::ParseError("a:b:int:c:d".to_string()))
    );
    let long = "abcdefghijklmnopqrstuvwxyz:int:n";
    assert_eq!(
        Address::from_str(long),
        Err(ErrorKind::ParseError(long.to_string()))
    );
}

#[test]
fn address_text_round_trips() {
    let a = Address::from_str("hero:stats:int_list:scores").unwrap();
    let again = Address::from_str(&a.to_string()).unwrap();
    assert_eq!(a, again);
    assert_eq!(a.clone(), a);
}

#[test]
fn local_address_forms() {
    let a = LocalAddress::from_str("int:n").unwrap();
    assert!(a.comp.is_none());
    assert_eq!(a.var_type, VarType::Int);
    assert_eq!(a.var_id.as_str(), "n");
    assert!(a.storage_index().is_none());
    let comp = new_truncate("ctr");
    let idx = a.storage_index_using(&comp);
    assert_eq!(idx.0.as_str(), "ctr");
    assert_eq!(a.to_string(), "int:n");
    let b = LocalAddress::from_str("sys:int:last_id").unwrap();
    assert_eq!(b.comp.as_ref().unwrap().as_str(), "sys");
    assert_eq!(b.storage_index().unwrap().1.as_str(), "last_id");
    assert_eq!(b.storage_index_using(&comp).0.as_str(), "sys");
    assert_eq!(b.to_string(), "sys:int:last_id");
    let c = LocalAddress::from_str("self:sys:int:last_id").unwrap();
    assert_eq!(c, b);
    assert_eq!(
        LocalAddress::from_str("other:sys:int:last_id"),
        Err(ErrorKind::ParseError("other:sys:int:last_id".to_string()))
    );
    assert_eq!(
        LocalAddress::from_str("n"),
        Err(ErrorKind::ParseError("n".to_string()))
    );
}
