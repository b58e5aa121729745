use outcome_core::address::{Address, LocalAddress, StorageIndex};
use outcome_core::entity::storage::Storage;
use outcome_core::error::Error;
use outcome_core::model::{ComponentModel, LogicModel, VarModel};
use outcome_core::string::new_truncate;
use outcome_core::var::{Float, Var, VarType};

fn idx(comp: &str, var: &str) -> StorageIndex {
    (new_truncate(comp), new_truncate(var))
}

fn sample() -> Storage {
    let mut s = Storage::new();
    s.insert("ctr", "n", &VarType::Int, None);
    s.insert("ctr", "label", &VarType::Str, Some(Var::Str("hi".to_string())));
    s.insert("body", "mass", &VarType::Float, Some(Var::Float(Float::from_bits(3))));
    s.insert("body", "alive", &VarType::Bool, Some(Var::Bool(true)));
    s.insert("body", "tags", &VarType::StrList, None);
    s.insert("body", "hits", &VarType::IntList, Some(Var::IntList(vec![1, 2])));
    s
}

#[test]
fn new_storage_is_empty() {
    let s = Storage::new();
    assert!(s.get_var(&idx("a", "b"), None).is_none());
    assert!(s.get_all_handles().is_empty());
    assert!(s.get_all_coerce_to_string().is_empty());
    assert_eq!(s.get_all_var().len(), 0);
}

#[test]
fn insert_without_value_gives_default_of_kind() {
    let s = sample();
    assert_eq!(s.get_var(&idx("ctr", "n"), None), Some(&Var::Int(0)));
    assert_eq!(s.get_var(&idx("body", "tags"), None), Some(&Var::StrList(vec![])));
    assert_eq!(s.get_int(&idx("ctr", "n")), Some(&0));
}

#[test]
fn insert_with_value_stores_it() {
    let s = sample();
    assert_eq!(s.get_str(&idx("ctr", "label")), Some(&"hi".to_string()));
    assert_eq!(s.get_bool(&idx("body", "alive")), Some(&true));
    assert_eq!(s.get_float(&idx("body", "mass")), Some(&Float::from_bits(3)));
    assert_eq!(s.get_int_list(&idx("body", "hits")), Some(&vec![1, 2]));
}

#[test]
fn inserted_kind_is_what_untyped_reads_see() {
    let mut s = Storage::new();
    let kinds = [
        VarType::Str,
        VarType::Int,
        VarType::Float,
        VarType::Bool,
        VarType::Byte,
        VarType::StrList,
        VarType::IntList,
        VarType::FloatList,
        VarType::BoolList,
        VarType::ByteList,
    ];
    for (i, k) in kinds.iter().enumerate() {
        s.insert("c", &format!("v{}", i), k, None);
    }
    // other writes in between
    s.insert_int(&idx("c", "extra"), 1);
    s.remove(&idx("c", "extra"));
    for (i, k) in kinds.iter().enumerate() {
        let v = s.get_var(&idx("c", &format!("v{}", i)), None).unwrap();
        assert_eq!(v.get_type(), *k);
    }
}

#[test]
fn typed_getters_refuse_other_kinds() {
    let s = sample();
    assert_eq!(s.get_str(&idx("ctr", "n")), None);
    assert_eq!(s.get_int(&idx("ctr", "label")), None);
    assert_eq!(s.get_float(&idx("ctr", "n")), None);
    assert_eq!(s.get_bool(&idx("ctr", "n")), None);
    assert_eq!(s.get_byte(&idx("ctr", "n")), None);
    assert_eq!(s.get_str_list(&idx("ctr", "n")), None);
    assert_eq!(s.get_int_list(&idx("ctr", "n")), None);
    assert_eq!(s.get_float_list(&idx("ctr", "n")), None);
    assert_eq!(s.get_bool_list(&idx("ctr", "n")), None);
    assert_eq!(s.get_byte_list(&idx("ctr", "n")), None);
    assert_eq!(s.get_int(&idx("nobody", "n")), None);
}

#[test]
fn mutable_getters_write_through() {
    let mut s = sample();
    *s.get_int_mut(&idx("ctr", "n")).unwrap() = 41;
    *s.get_int_mut(&idx("ctr", "n")).unwrap() += 1;
    assert_eq!(s.get_int(&idx("ctr", "n")), Some(&42));
    s.get_str_mut(&idx("ctr", "label")).unwrap().push_str(" there");
    assert_eq!(s.get_str(&idx("ctr", "label")), Some(&"hi there".to_string()));
    *s.get_bool_mut(&idx("body", "alive")).unwrap() = false;
    assert_eq!(s.get_bool(&idx("body", "alive")), Some(&false));
    *s.get_float_mut(&idx("body", "mass")).unwrap() = Float::from_bits(8);
    assert_eq!(s.get_float(&idx("body", "mass")), Some(&Float::from_bits(8)));
    s.get_int_list_mut(&idx("body", "hits")).unwrap().push(3);
    assert_eq!(s.get_int_list(&idx("body", "hits")), Some(&vec![1, 2, 3]));
    s.get_str_list_mut(&idx("body", "tags")).unwrap().push("t".to_string());
    assert_eq!(s.get_str_list(&idx("body", "tags")), Some(&vec!["t".to_string()]));
    assert!(s.get_int_mut(&idx("ctr", "label")).is_none());
    assert!(s.get_str_mut(&idx("ctr", "n")).is_none());
    assert!(s.get_byte_mut(&idx("ctr", "n")).is_none());
    assert!(s.get_float_list_mut(&idx("ctr", "n")).is_none());
    assert!(s.get_bool_list_mut(&idx("ctr", "n")).is_none());
    assert!(s.get_byte_list_mut(&idx("ctr", "n")).is_none());
    *s.get_var_mut(&idx("ctr", "n"), None).unwrap() = Var::Int(7);
    assert_eq!(s.get_int(&idx("ctr", "n")), Some(&7));
    assert!(s.get_var_mut(&idx("ctr", "none"), None).is_none());
}

#[test]
fn address_reads_agree_with_index_reads() {
    let s = sample();
    let present = Address::from_str("ctr:int:n").unwrap();
    let absent = Address::from_str("ctr:int:m").unwrap();
    assert_eq!(
        s.get_var_from_addr(&present, None).is_ok(),
        s.get_var(&present.storage_index(), None).is_some()
    );
    assert_eq!(
        s.get_var_from_addr(&absent, None).is_ok(),
        s.get_var(&absent.storage_index(), None).is_some()
    );
    assert_eq!(s.get_var_from_addr(&present, None), Ok(&Var::Int(0)));
    assert_eq!(
        s.get_var_from_addr(&absent, None),
        Err(Error::FailedGettingVariable("self:ctr:int:m".to_string()))
    );
}

#[test]
fn address_reads_with_component_override() {
    let mut s = sample();
    let addr = Address::from_str("other:int:n").unwrap();
    let ctr = new_truncate("ctr");
    assert_eq!(s.get_var_from_addr(&addr, Some(&ctr)), Ok(&Var::Int(0)));
    assert!(s.get_var_from_addr(&addr, None).is_err());
    *s.get_var_mut_from_addr(&addr, Some(&ctr)).unwrap() = Var::Int(9);
    assert_eq!(s.get_int(&idx("ctr", "n")), Some(&9));
    assert_eq!(
        s.get_var_mut_from_addr(&addr, None).err(),
        Some(Error::FailedGettingVariable("self:other:int:n".to_string()))
    );
}

#[test]
fn generic_reads_ignore_the_kind_in_the_address() {
    let s = sample();
    let addr = Address::from_str("ctr:str:n").unwrap();
    assert_eq!(s.get_var_from_addr(&addr, None), Ok(&Var::Int(0)));
    assert_eq!(s.get_var(&idx("ctr", "n"), Some(VarType::Bool)), Some(&Var::Int(0)));
}

#[test]
fn set_from_local_addr_copies_the_value() {
    let mut s = sample();
    s.insert("ctr", "m", &VarType::Int, Some(Var::Int(5)));
    let target = LocalAddress::from_str("ctr:int:n").unwrap();
    let source = LocalAddress::from_str("ctr:int:m").unwrap();
    s.set_from_local_addr(&target, &source);
    assert_eq!(s.get_int(&idx("ctr", "n")), Some(&5));
    assert_eq!(s.get_int(&idx("ctr", "m")), Some(&5));
}

#[test]
fn set_from_var_overwrites() {
    let mut s = sample();
    let target = Address::from_str("ctr:int:n").unwrap();
    s.set_from_var(&target, None, &Var::Int(11));
    assert_eq!(s.get_int(&idx("ctr", "n")), Some(&11));
    s.set_from_var(&target, None, &Var::Str("now text".to_string()));
    assert_eq!(s.get_str(&idx("ctr", "n")), Some(&"now text".to_string()));
}

#[test]
fn insert_truncates_names() {
    let mut s = Storage::new();
    s.insert_var("a_component_name_that_is_too_long", "v", Var::Int(1));
    assert_eq!(s.get_int(&idx("a_component_name_that_i", "v")), Some(&1));
    assert_eq!(s.get_int(&idx("a_component_name_that_is_too_long", "v")), Some(&1));
}

#[test]
fn typed_inserts() {
    let mut s = Storage::new();
    s.insert_int(&idx("c", "i"), 4);
    s.insert_int_list(&idx("c", "l"), vec![4, 5]);
    assert_eq!(s.get_int(&idx("c", "i")), Some(&4));
    assert_eq!(s.get_int_list(&idx("c", "l")), Some(&vec![4, 5]));
    s.put(&idx("c", "i"), Var::Byte(1));
    assert_eq!(s.get_byte(&idx("c", "i")), Some(&1));
}

fn comp_model(name: &str, vars: &[&str]) -> ComponentModel {
    ComponentModel {
        name: new_truncate(name),
        vars: vars
            .iter()
            .map(|v| VarModel { id: v.to_string(), type_: VarType::Int, default: None })
            .collect(),
        start_state: new_truncate("main"),
        triggers: vec![],
        logic: LogicModel::empty(),
        source_files: vec![],
        script_files: vec![],
        lib_files: vec![],
    }
}

#[test]
fn remove_comp_vars_removes_exactly_those_of_the_model() {
    let mut s = sample();
    s.insert("ctr", "extra", &VarType::Int, None);
    s.insert("body", "n", &VarType::Int, None);
    let model = comp_model("ctr", &["n", "label", "ghost"]);
    s.remove_comp_vars(&new_truncate("ctr"), &model);
    assert!(s.get_var(&idx("ctr", "n"), None).is_none());
    assert!(s.get_var(&idx("ctr", "label"), None).is_none());
    // not named by the model
    assert!(s.get_var(&idx("ctr", "extra"), None).is_some());
    // same name under another component
    assert!(s.get_var(&idx("body", "n"), None).is_some());
    assert!(s.get_var(&idx("body", "mass"), None).is_some());
}

#[test]
fn handles_list_every_variable_once() {
    let s = sample();
    let mut handles: Vec<(String, VarType, String)> = s
        .get_all_handles()
        .into_iter()
        .map(|(c, t, v)| (c.to_string(), t, v.to_string()))
        .collect();
    handles.sort_by(|a, b| (a.0.clone(), a.2.clone()).cmp(&(b.0.clone(), b.2.clone())));
    assert_eq!(
        handles,
        vec![
            ("body".to_string(), VarType::Bool, "alive".to_string()),
            ("body".to_string(), VarType::IntList, "hits".to_string()),
            ("body".to_string(), VarType::Float, "mass".to_string()),
            ("body".to_string(), VarType::StrList, "tags".to_string()),
            ("ctr".to_string(), VarType::Str, "label".to_string()),
            ("ctr".to_string(), VarType::Int, "n".to_string()),
        ]
    );
    let ints = s.get_all_handles_of_type(VarType::Int);
    assert_eq!(ints.len(), 1);
    assert_eq!(ints[0].0.as_str(), "ctr");
    assert_eq!(ints[0].1, VarType::Int);
    assert_eq!(ints[0].2.as_str(), "n");
    assert!(s.get_all_handles_of_type(VarType::Byte).is_empty());
}

#[test]
fn typed_collections() {
    let mut s = sample();
    s.insert("ctr", "m", &VarType::Int, Some(Var::Int(2)));
    let mut ints: Vec<(String, i64)> =
        s.get_all_int().into_iter().map(|(k, v)| (k.1.to_string(), *v)).collect();
    ints.sort();
    assert_eq!(ints, vec![("m".to_string(), 2), ("n".to_string(), 0)]);
    let strs = s.get_all_str();
    assert_eq!(strs.len(), 1);
    assert_eq!(strs[0].1, "hi");
    let bools = s.get_all_bool();
    assert_eq!(bools.len(), 1);
    assert_eq!(*bools[0].1, true);
    let floats = s.get_all_float();
    assert_eq!(floats.len(), 1);
    assert_eq!(floats[0].1.to_bits(), 3);
    assert_eq!(s.get_all_var().len(), 7);
}

#[test]
fn coerce_to_string() {
    let s = sample();
    let addr = Address::from_str("ctr:int:n").unwrap();
    assert_eq!(s.get_coerce_to_string(&addr, None), Ok("0".to_string()));
    let missing = Address::from_str("ctr:int:zz").unwrap();
    assert_eq!(
        s.get_coerce_to_string(&missing, None),
        Err(Error::FailedGettingVariable("self:ctr:int:zz".to_string()))
    );
    let mut all = s.get_all_coerce_to_string();
    all.sort();
    assert_eq!(
        all,
        vec![
            ("body:bool:alive".to_string(), "true".to_string()),
            ("body:float:mass".to_string(), "3".to_string()),
            ("body:int_list:hits".to_string(), "[1, 2]".to_string()),
            ("body:str_list:tags".to_string(), "[]".to_string()),
            ("ctr:int:n".to_string(), "0".to_string()),
            ("ctr:str:label".to_string(), "hi".to_string()),
        ]
    );
}

#[test]
fn entries_round_trip_gives_an_equal_store() {
    let s = sample();
    let entries = s.entries();
    assert_eq!(entries.len(), 6);
    let again = Storage::from_entries(&entries);
    let mut a = s.get_all_coerce_to_string();
    let mut b = again.get_all_coerce_to_string();
    a.sort();
    b.sort();
    assert_eq!(a, b);
    let copy = s.clone();
    let mut c = copy.get_all_coerce_to_string();
    c.sort();
    assert_eq!(a, c);
}

#[test]
fn later_entry_of_a_key_stays() {
    let entries = vec![
        (idx("c", "v"), Var::Int(1)),
        (idx("c", "w"), Var::Int(2)),
        (idx("c", "v"), Var::Int(3)),
    ];
    let s = Storage::from_entries(&entries);
    assert_eq!(s.get_int(&idx("c", "v")), Some(&3));
    assert_eq!(s.get_int(&idx("c", "w")), Some(&2));
    assert_eq!(s.entries().len(), 2);
}

#[test]
fn guarded_writes_need_their_variables() {
    let mut s = sample();
    let n = LocalAddress::from_str("ctr:int:n").unwrap();
    let label = LocalAddress::from_str("ctr:str:label").unwrap();
    let missing = LocalAddress::from_str("ctr:int:zz").unwrap();
    let unnamed = LocalAddress::from_str("int:n").unwrap();
    assert!(!s.try_set_from_local_addr(&n, &missing));
    assert!(!s.try_set_from_local_addr(&missing, &n));
    assert!(!s.try_set_from_local_addr(&unnamed, &n));
    assert_eq!(s.get_int(&idx("ctr", "n")), Some(&0));
    assert!(s.get_var(&idx("ctr", "zz"), None).is_none());
    assert!(s.try_set_from_local_addr(&n, &label));
    assert_eq!(s.get_str(&idx("ctr", "n")), Some(&"hi".to_string()));
    let target = Address::from_str("ctr:int:n").unwrap();
    assert!(s.try_set_from_var(&target, &Var::Int(4)));
    assert_eq!(s.get_int(&idx("ctr", "n")), Some(&4));
    let absent = Address::from_str("ctr:int:zz").unwrap();
    assert!(!s.try_set_from_var(&absent, &Var::Int(4)));
    assert!(s.get_var(&idx("ctr", "zz"), None).is_none());
}

#[test]
fn no_name_is_listed_twice() {
    // two variables that go under one name: "a:int:str:b"
    let mut s = Storage::new();
    s.insert("a:int", "b", &VarType::Str, Some(Var::Str("one".to_string())));
    s.insert("a", "str:b", &VarType::Int, Some(Var::Int(2)));
    s.insert("a", "c", &VarType::Int, Some(Var::Int(3)));
    let mut all = s.get_all_coerce_to_string();
    all.sort();
    assert_eq!(all.len(), 2);
    assert_eq!(all[0], ("a:int:c".to_string(), "3".to_string()));
    assert_eq!(all[1].0, "a:int:str:b");
    assert!(all[1].1 == "one" || all[1].1 == "2");
    assert_eq!(
        outcome_core::entity::storage::variable_name(&idx("body", "mass"), VarType::Float),
        "body:float:mass"
    );
}
