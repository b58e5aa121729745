use outcome_core::msg::{Message, MessageType, Payload, VarJson, MESSAGE_TYPES};
use outcome_core::var::{Float, Var};

#[test]
fn message_type_codes_are_stable() {
    assert_eq!(MessageType::Bytes.code(), 0);
    assert_eq!(MessageType::Heartbeat.code(), 1);
    assert_eq!(MessageType::Disconnect.code(), 2);
    assert_eq!(MessageType::Connect.code(), 3);
    assert_eq!(MessageType::PingRequest.code(), 4);
    assert_eq!(MessageType::PingResponse.code(), 5);
    assert_eq!(MessageType::RegisterClientRequest.code(), 6);
    assert_eq!(MessageType::IntroduceCoordRequest.code(), 8);
    assert_eq!(MessageType::ExportSnapshotRequest.code(), 12);
    assert_eq!(MessageType::StatusRequest.code(), 16);
    assert_eq!(MessageType::QueryResponse.code(), 21);
    assert_eq!(MessageType::JsonPullRequest.code(), 26);
    assert_eq!(MessageType::TurnAdvanceRequest.code(), 34);
    assert_eq!(MessageType::SpawnEntitiesRequest.code(), 36);
    assert_eq!(MessageType::SpawnEntitiesResponse.code(), 37);
    assert_eq!(MESSAGE_TYPES, 38);
}

#[test]
fn message_type_codes_round_trip() {
    for code in 0..=255u8 {
        match MessageType::from_code(code) {
            Some(t) => {
                assert!(code < MESSAGE_TYPES);
                assert_eq!(t.code(), code);
            }
            None => assert!(code >= MESSAGE_TYPES),
        }
    }
    assert_eq!(MessageType::from_code(5), Some(MessageType::PingResponse));
    assert_eq!(MessageType::from_code(38), None);
}

#[derive(Clone)]
struct Ping;

impl Payload for Ping {
    fn type_(&self) -> MessageType {
        MessageType::PingRequest
    }
}

#[test]
fn message_from_payload() {
    let m = Message::from_payload(Ping.type_(), vec![1, 2, 3]);
    assert_eq!(m, Message { task_id: 0, type_: MessageType::PingRequest, payload: vec![1, 2, 3] });
    assert_eq!(
        Message::from_parts(7, 1, vec![]),
        Some(Message { task_id: 7, type_: MessageType::Heartbeat, payload: vec![] })
    );
    assert_eq!(Message::from_parts(7, 200, vec![]), None);
}

#[test]
fn var_json_is_lossless() {
    let vars = vec![
        Var::Str("text".to_string()),
        Var::Int(-5),
        Var::Float(Float::from_bits(2.5f64.to_bits())),
        Var::Bool(true),
        Var::Byte(200),
        Var::StrList(vec!["a".to_string(), "b".to_string()]),
        Var::IntList(vec![1, 2]),
        Var::FloatList(vec![Float::from_bits(1)]),
        Var::BoolList(vec![false]),
        Var::ByteList(vec![9]),
    ];
    for v in vars {
        let json = VarJson::from(v.clone());
        let back: Var = json.into();
        assert_eq!(back, v);
    }
    let jsons = vec![
        VarJson::String("s".to_string()),
        VarJson::Int(1),
        VarJson::StringList(vec![]),
        VarJson::ByteList(vec![1, 2]),
    ];
    for j in jsons {
        let var: Var = Var::from(VarJson::from(Var::from(clone_json(&j))));
        assert_eq!(VarJson::from(var), j);
    }
    assert_eq!(VarJson::from(Var::Str("s".to_string())), VarJson::String("s".to_string()));
    assert_eq!(VarJson::from(Var::StrList(vec![])), VarJson::StringList(vec![]));
}

fn clone_json(j: &VarJson) -> VarJson {
    match j {
        VarJson::String(v) => VarJson::String(v.clone()),
        VarJson::Int(v) => VarJson::Int(*v),
        VarJson::Float(v) => VarJson::Float(*v),
        VarJson::Bool(v) => VarJson::Bool(*v),
        VarJson::Byte(v) => VarJson::Byte(*v),
        VarJson::StringList(v) => VarJson::StringList(v.clone()),
        VarJson::IntList(v) => VarJson::IntList(v.clone()),
        VarJson::FloatList(v) => VarJson::FloatList(v.clone()),
        VarJson::BoolList(v) => VarJson::BoolList(v.clone()),
        VarJson::ByteList(v) => VarJson::ByteList(v.clone()),
    }
}
