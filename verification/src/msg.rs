//! Message definitions: the kinds of messages that nodes exchange, each
//! with its stable code, the message itself, and the shape in which values
//! travel as JSON.

use vstd::prelude::*;
use vstd::std_specs::convert::FromSpecImpl;
use crate::var::{Float, Int, Var};

verus! {

/// Identifier of a task, which lets the receiver of messages tell them
/// apart.
pub type TaskId = u32;

/// Enumeration of all available message types.
#[derive(Debug, Clone, Copy, PartialEq, Eq, Structural)]
pub enum MessageType {
    Bytes,
    Heartbeat,
    Disconnect,
    Connect,
    PingRequest,
    PingResponse,
    RegisterClientRequest,
    RegisterClientResponse,
    IntroduceCoordRequest,
    IntroduceCoordResponse,
    IntroduceWorkerToCoordRequest,
    IntroduceWorkerToCoordResponse,
    ExportSnapshotRequest,
    ExportSnapshotResponse,
    RegisterRequest,
    RegisterResponse,
    StatusRequest,
    StatusResponse,
    NativeQueryRequest,
    NativeQueryResponse,
    QueryRequest,
    QueryResponse,
    DataTransferRequest,
    DataTransferResponse,
    TypedDataTransferRequest,
    TypedDataTransferResponse,
    JsonPullRequest,
    JsonPullResponse,
    DataPullRequest,
    DataPullResponse,
    TypedDataPullRequest,
    TypedDataPullResponse,
    ScheduledDataTransferRequest,
    ScheduledDataTransferResponse,
    TurnAdvanceRequest,
    TurnAdvanceResponse,
    SpawnEntitiesRequest,
    SpawnEntitiesResponse,
}

/// The number of message types.
pub const MESSAGE_TYPES: u8 = 38;

/// The code of a message type: its position in the enumeration.
pub open spec fn code_of(t: MessageType) -> u8 {
    match t {
        MessageType::Bytes => 0,
        MessageType::Heartbeat => 1,
        MessageType::Disconnect => 2,
        MessageType::Connect => 3,
        MessageType::PingRequest => 4,
        MessageType::PingResponse => 5,
        MessageType::RegisterClientRequest => 6,
        MessageType::RegisterClientResponse => 7,
        MessageType::IntroduceCoordRequest => 8,
        MessageType::IntroduceCoordResponse => 9,
        MessageType::IntroduceWorkerToCoordRequest => 10,
        MessageType::IntroduceWorkerToCoordResponse => 11,
        MessageType::ExportSnapshotRequest => 12,
        MessageType::ExportSnapshotResponse => 13,
        MessageType::RegisterRequest => 14,
        MessageType::RegisterResponse => 15,
        MessageType::StatusRequest => 16,
        MessageType::StatusResponse => 17,
        MessageType::NativeQueryRequest => 18,
        MessageType::NativeQueryResponse => 19,
        MessageType::QueryRequest => 20,
        MessageType::QueryResponse => 21,
        MessageType::DataTransferRequest => 22,
        MessageType::DataTransferResponse => 23,
        MessageType::TypedDataTransferRequest => 24,
        MessageType::TypedDataTransferResponse => 25,
        MessageType::JsonPullRequest => 26,
        MessageType::JsonPullResponse => 27,
        MessageType::DataPullRequest => 28,
        MessageType::DataPullResponse => 29,
        MessageType::TypedDataPullRequest => 30,
        MessageType::TypedDataPullResponse => 31,
        MessageType::ScheduledDataTransferRequest => 32,
        MessageType::ScheduledDataTransferResponse => 33,
        MessageType::TurnAdvanceRequest => 34,
        MessageType::TurnAdvanceResponse => 35,
        MessageType::SpawnEntitiesRequest => 36,
        MessageType::SpawnEntitiesResponse => 37,
    }
}

/// The message type of a code, if the code is one.
pub open spec fn type_of_code(code: u8) -> Option<MessageType> {
    if code == 0 {
        Some(MessageType::Bytes)
    } else if code == 1 {
        Some(MessageType::Heartbeat)
    } else if code == 2 {
        Some(MessageType::Disconnect)
    } else if code == 3 {
        Some(MessageType::Connect)
    } else if code == 4 {
        Some(MessageType::PingRequest)
    } else if code == 5 {
        Some(MessageType::PingResponse)
    } else if code == 6 {
        Some(MessageType::RegisterClientRequest)
    } else if code == 7 {
        Some(MessageType::RegisterClientResponse)
    } else if code == 8 {
        Some(MessageType::IntroduceCoordRequest)
    } else if code == 9 {
        Some(MessageType::IntroduceCoordResponse)
    } else if code == 10 {
        Some(MessageType::IntroduceWorkerToCoordRequest)
    } else if code == 11 {
        Some(MessageType::IntroduceWorkerToCoordResponse)
    } else if code == 12 {
        Some(MessageType::ExportSnapshotRequest)
    } else if code == 13 {
        Some(MessageType::ExportSnapshotResponse)
    } else if code == 14 {
        Some(MessageType::RegisterRequest)
    } else if code == 15 {
        Some(MessageType::RegisterResponse)
    } else if code == 16 {
        Some(MessageType::StatusRequest)
    } else if code == 17 {
        Some(MessageType::StatusResponse)
    } else if code == 18 {
        Some(MessageType::NativeQueryRequest)
    } else if code == 19 {
        Some(MessageType::NativeQueryResponse)
    } else if code == 20 {
        Some(MessageType::QueryRequest)
    } else if code == 21 {
        Some(MessageType::QueryResponse)
    } else if code == 22 {
        Some(MessageType::DataTransferRequest)
    } else if code == 23 {
        Some(MessageType::DataTransferResponse)
    } else if code == 24 {
        Some(MessageType::TypedDataTransferRequest)
    } else if code == 25 {
        Some(MessageType::TypedDataTransferResponse)
    } else if code == 26 {
        Some(MessageType::JsonPullRequest)
    } else if code == 27 {
        Some(MessageType::JsonPullResponse)
    } else if code == 28 {
        Some(MessageType::DataPullRequest)
    } else if code == 29 {
        Some(MessageType::DataPullResponse)
    } else if code == 30 {
        Some(MessageType::TypedDataPullRequest)
    } else if code == 31 {
        Some(MessageType::TypedDataPullResponse)
    } else if code == 32 {
        Some(MessageType::ScheduledDataTransferRequest)
    } else if code == 33 {
        Some(MessageType::ScheduledDataTransferResponse)
    } else if code == 34 {
        Some(MessageType::TurnAdvanceRequest)
    } else if code == 35 {
        Some(MessageType::TurnAdvanceResponse)
    } else if code == 36 {
        Some(MessageType::SpawnEntitiesRequest)
    } else if code == 37 {
        Some(MessageType::SpawnEntitiesResponse)
    } else {
        None
    }
}

/// The code of a message type reads as that type, and a code that reads
/// as a type is the code of that type.
pub proof fn lemma_message_type_codes(t: MessageType, code: u8)
    ensures
        type_of_code(code_of(t)) == Some(t),
        code_of(t) < MESSAGE_TYPES,
        type_of_code(code) is Some <==> code < MESSAGE_TYPES,
        type_of_code(code) matches Some(x) ==> code_of(x) == code,
{
}

impl MessageType {
    /// The code of the message type.
    pub fn code(&self) -> (r: u8)
        ensures
            r == code_of(*self),
    {
        match self {
            MessageType::Bytes => 0,
            MessageType::Heartbeat => 1,
            MessageType::Disconnect => 2,
            MessageType::Connect => 3,
            MessageType::PingRequest => 4,
            MessageType::PingResponse => 5,
            MessageType::RegisterClientRequest => 6,
            MessageType::RegisterClientResponse => 7,
            MessageType::IntroduceCoordRequest => 8,
            MessageType::IntroduceCoordResponse => 9,
            MessageType::IntroduceWorkerToCoordRequest => 10,
            MessageType::IntroduceWorkerToCoordResponse => 11,
            MessageType::ExportSnapshotRequest => 12,
            MessageType::ExportSnapshotResponse => 13,
            MessageType::RegisterRequest => 14,
            MessageType::RegisterResponse => 15,
            MessageType::StatusRequest => 16,
            MessageType::StatusResponse => 17,
            MessageType::NativeQueryRequest => 18,
            MessageType::NativeQueryResponse => 19,
            MessageType::QueryRequest => 20,
            MessageType::QueryResponse => 21,
            MessageType::DataTransferRequest => 22,
            MessageType::DataTransferResponse => 23,
            MessageType::TypedDataTransferRequest => 24,
            MessageType::TypedDataTransferResponse => 25,
            MessageType::JsonPullRequest => 26,
            MessageType::JsonPullResponse => 27,
            MessageType::DataPullRequest => 28,
            MessageType::DataPullResponse => 29,
            MessageType::TypedDataPullRequest => 30,
            MessageType::TypedDataPullResponse => 31,
            MessageType::ScheduledDataTransferRequest => 32,
            MessageType::ScheduledDataTransferResponse => 33,
            MessageType::TurnAdvanceRequest => 34,
            MessageType::TurnAdvanceResponse => 35,
            MessageType::SpawnEntitiesRequest => 36,
            MessageType::SpawnEntitiesResponse => 37,
        }
    }

    /// The message type of a code, if the code is one.
    pub fn from_code(code: u8) -> (r: Option<MessageType>)
        ensures
            r == type_of_code(code),
    {
        if code == 0 {
            Some(MessageType::Bytes)
        } else if code == 1 {
            Some(MessageType::Heartbeat)
        } else if code == 2 {
            Some(MessageType::Disconnect)
        } else if code == 3 {
            Some(MessageType::Connect)
        } else if code == 4 {
            Some(MessageType::PingRequest)
        } else if code == 5 {
            Some(MessageType::PingResponse)
        } else if code == 6 {
            Some(MessageType::RegisterClientRequest)
        } else if code == 7 {
            Some(MessageType::RegisterClientResponse)
        } else if code == 8 {
            Some(MessageType::IntroduceCoordRequest)
        } else if code == 9 {
            Some(MessageType::IntroduceCoordResponse)
        } else if code == 10 {
            Some(MessageType::IntroduceWorkerToCoordRequest)
        } else if code == 11 {
            Some(MessageType::IntroduceWorkerToCoordResponse)
        } else if code == 12 {
            Some(MessageType::ExportSnapshotRequest)
        } else if code == 13 {
            Some(MessageType::ExportSnapshotResponse)
        } else if code == 14 {
            Some(MessageType::RegisterRequest)
        } else if code == 15 {
            Some(MessageType::RegisterResponse)
        } else if code == 16 {
            Some(MessageType::StatusRequest)
        } else if code == 17 {
            Some(MessageType::StatusResponse)
        } else if code == 18 {
            Some(MessageType::NativeQueryRequest)
        } else if code == 19 {
            Some(MessageType::NativeQueryResponse)
        } else if code == 20 {
            Some(MessageType::QueryRequest)
        } else if code == 21 {
            Some(MessageType::QueryResponse)
        } else if code == 22 {
            Some(MessageType::DataTransferRequest)
        } else if code == 23 {
            Some(MessageType::DataTransferResponse)
        } else if code == 24 {
            Some(MessageType::TypedDataTransferRequest)
        } else if code == 25 {
            Some(MessageType::TypedDataTransferResponse)
        } else if code == 26 {
            Some(MessageType::JsonPullRequest)
        } else if code == 27 {
            Some(MessageType::JsonPullResponse)
        } else if code == 28 {
            Some(MessageType::DataPullRequest)
        } else if code == 29 {
            Some(MessageType::DataPullResponse)
        } else if code == 30 {
            Some(MessageType::TypedDataPullRequest)
        } else if code == 31 {
            Some(MessageType::TypedDataPullResponse)
        } else if code == 32 {
            Some(MessageType::ScheduledDataTransferRequest)
        } else if code == 33 {
            Some(MessageType::ScheduledDataTransferResponse)
        } else if code == 34 {
            Some(MessageType::TurnAdvanceRequest)
        } else if code == 35 {
            Some(MessageType::TurnAdvanceResponse)
        } else if code == 36 {
            Some(MessageType::SpawnEntitiesRequest)
        } else if code == 37 {
            Some(MessageType::SpawnEntitiesResponse)
        } else {
            None
        }
    }
}

/// Self-described message structure wrapping a byte payload.
#[derive(Clone, Debug, PartialEq)]
pub struct Message {
    /// Integer identifier allowing for custom message filtering
    pub task_id: TaskId,
    /// Describes what is stored within the payload
    pub type_: MessageType,
    /// Byte representation of the message payload
    pub payload: Vec<u8>,
}

impl Message {
    /// Creates a complete `Message` from the type of a payload and the
    /// bytes that the payload was packed to, for the task zero.
    pub fn from_payload(type_: MessageType, payload: Vec<u8>) -> (r: Message)
        ensures
            r.task_id == 0,
            r.type_ == type_,
            r.payload == payload,
    {
        Message { task_id: 0, type_, payload }
    }

    /// The message with the given parts, where the code is that of a
    /// message type.
    pub fn from_parts(task_id: TaskId, code: u8, payload: Vec<u8>) -> (r: Option<Message>)
        ensures
            match r {
                Some(m) => type_of_code(code) == Some(m.type_) && m.task_id == task_id && m.payload
                    == payload,
                None => type_of_code(code) is None,
            },
    {
        match MessageType::from_code(code) {
            Some(type_) => Some(Message { task_id, type_, payload }),
            None => None,
        }
    }
}

/// What can be the payload of a message.
pub trait Payload: Clone {
    /// Allows payload message structs to state their message type.
    fn type_(&self) -> MessageType;
}

/// Version of the `Var` struct used for untagged ser/deser.
#[derive(Debug, PartialEq)]
pub enum VarJson {
    String(String),
    Int(Int),
    Float(Float),
    Bool(bool),
    Byte(u8),
    StringList(Vec<String>),
    IntList(Vec<Int>),
    FloatList(Vec<Float>),
    BoolList(Vec<bool>),
    ByteList(Vec<u8>),
}

/// The JSON shape of a value.
pub open spec fn json_of_var(var: Var) -> VarJson {
    match var {
        Var::Str(v) => VarJson::String(v),
        Var::Int(v) => VarJson::Int(v),
        Var::Float(v) => VarJson::Float(v),
        Var::Bool(v) => VarJson::Bool(v),
        Var::Byte(v) => VarJson::Byte(v),
        Var::StrList(v) => VarJson::StringList(v),
        Var::IntList(v) => VarJson::IntList(v),
        Var::FloatList(v) => VarJson::FloatList(v),
        Var::BoolList(v) => VarJson::BoolList(v),
        Var::ByteList(v) => VarJson::ByteList(v),
    }
}

/// The value of a JSON shape.
pub open spec fn var_of_json(var: VarJson) -> Var {
    match var {
        VarJson::String(v) => Var::Str(v),
        VarJson::Int(v) => Var::Int(v),
        VarJson::Float(v) => Var::Float(v),
        VarJson::Bool(v) => Var::Bool(v),
        VarJson::Byte(v) => Var::Byte(v),
        VarJson::StringList(v) => Var::StrList(v),
        VarJson::IntList(v) => Var::IntList(v),
        VarJson::FloatList(v) => Var::FloatList(v),
        VarJson::BoolList(v) => Var::BoolList(v),
        VarJson::ByteList(v) => Var::ByteList(v),
    }
}

impl From<Var> for VarJson {
    fn from(var: Var) -> (r: Self) {
        match var {
            Var::Str(v) => VarJson::String(v),
            Var::Int(v) => VarJson::Int(v),
            Var::Float(v) => VarJson::Float(v),
            Var::Bool(v) => VarJson::Bool(v),
            Var::Byte(v) => VarJson::Byte(v),
            Var::StrList(v) => VarJson::StringList(v),
            Var::IntList(v) => VarJson::IntList(v),
            Var::FloatList(v) => VarJson::FloatList(v),
            Var::BoolList(v) => VarJson::BoolList(v),
            Var::ByteList(v) => VarJson::ByteList(v),
        }
    }
}

impl FromSpecImpl<Var> for VarJson {
    open spec fn obeys_from_spec() -> bool {
        true
    }

    open spec fn from_spec(var: Var) -> Self {
        json_of_var(var)
    }
}

impl From<VarJson> for Var {
    fn from(var: VarJson) -> (r: Self) {
        match var {
            VarJson::String(v) => Var::Str(v),
            VarJson::Int(v) => Var::Int(v),
            VarJson::Float(v) => Var::Float(v),
            VarJson::Bool(v) => Var::Bool(v),
            VarJson::Byte(v) => Var::Byte(v),
            VarJson::StringList(v) => Var::StrList(v),
            VarJson::IntList(v) => Var::IntList(v),
            VarJson::FloatList(v) => Var::FloatList(v),
            VarJson::BoolList(v) => Var::BoolList(v),
            VarJson::ByteList(v) => Var::ByteList(v),
        }
    }
}

impl FromSpecImpl<VarJson> for Var {
    open spec fn obeys_from_spec() -> bool {
        true
    }

    open spec fn from_spec(var: VarJson) -> Self {
        var_of_json(var)
    }
}

/// The way from a value to its JSON shape and back loses nothing, and
/// neither does the way from the JSON shape to a value and back.
pub proof fn lemma_var_json_lossless(var: Var, json: VarJson)
    ensures
        var_of_json(json_of_var(var)) == var,
        json_of_var(var_of_json(json)) == json,
{
}

} // verus!
