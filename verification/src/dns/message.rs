//! Queries and responses, as far as the answer engine reads and writes
//! them.

use crate::name::{LowerName, Name, NameView};
use vstd::prelude::*;

verus! {

/// The kind of operation that a message asks for.
#[derive(Clone, Copy, Debug, PartialEq, Eq, Structural)]
pub enum OpCode {
    Query,
    Status,
    Notify,
    Update,
}

/// Whether a message is a query or a response.
#[derive(Clone, Copy, Debug, PartialEq, Eq, Structural)]
pub enum MessageType {
    Query,
    Response,
}

/// The type of record that a query asks for.
#[derive(Clone, Copy, Debug, PartialEq, Eq, Structural)]
pub enum RecordType {
    A,
    AAAA,
    NS,
    SOA,
    TXT,
    /// Any other type, by its number.
    Unknown(u16),
}

/// The status of a response.
#[derive(Clone, Copy, Debug, PartialEq, Eq, Structural)]
pub enum ResponseCode {
    NoError,
    ServFail,
    NXDomain,
    NotImp,
}

/// What the answer engine reads of a request.
#[derive(Debug)]
pub struct Request {
    pub op_code: OpCode,
    pub message_type: MessageType,
    pub query_type: RecordType,
    pub name: LowerName,
}

/// The data of a start-of-authority record.
#[derive(Debug)]
pub struct SOA {
    pub mname: Name,
    pub rname: Name,
    pub serial: u32,
    pub refresh: i32,
    pub retry: i32,
    pub expire: i32,
    pub minimum: u32,
}

/// The data of a record.
#[derive(Debug)]
pub enum RData {
    A(u32),
    AAAA(u128),
    NS(Name),
    SOA(SOA),
    TXT(String),
}

/// An answer record.
#[derive(Debug)]
pub struct Record {
    pub name: Name,
    pub ttl: u32,
    pub rdata: RData,
}

/// What the answer engine decides of a response.
#[derive(Debug)]
pub struct Response {
    pub response_code: ResponseCode,
    pub authoritative: bool,
    pub answers: Vec<Record>,
}

/// What the data of a record is.
pub ghost enum RDataView {
    A(u32),
    AAAA(u128),
    NS(NameView),
    SOA {
        mname: NameView,
        rname: NameView,
        serial: u32,
        refresh: i32,
        retry: i32,
        expire: i32,
        minimum: u32,
    },
    TXT(Seq<char>),
}

/// What an answer record is.
pub ghost struct RecordView {
    pub name: NameView,
    pub ttl: u32,
    pub rdata: RDataView,
}

/// What a response is.
pub ghost struct ResponseView {
    pub response_code: ResponseCode,
    pub authoritative: bool,
    pub answers: Seq<RecordView>,
}

impl View for RData {
    type V = RDataView;

    open spec fn view(&self) -> RDataView {
        match self {
            RData::A(a) => RDataView::A(*a),
            RData::AAAA(a) => RDataView::AAAA(*a),
            RData::NS(name) => RDataView::NS(name@),
            RData::SOA(soa) => RDataView::SOA {
                mname: soa.mname@,
                rname: soa.rname@,
                serial: soa.serial,
                refresh: soa.refresh,
                retry: soa.retry,
                expire: soa.expire,
                minimum: soa.minimum,
            },
            RData::TXT(text) => RDataView::TXT(text@),
        }
    }
}

impl View for Record {
    type V = RecordView;

    open spec fn view(&self) -> RecordView {
        RecordView { name: self.name@, ttl: self.ttl, rdata: self.rdata@ }
    }
}

/// What a list of records is.
pub open spec fn records_view(records: Seq<Record>) -> Seq<RecordView> {
    records.map_values(|r: Record| r@)
}

/// What a list of record data is.
pub open spec fn rdata_view(rdata: Seq<RData>) -> Seq<RDataView> {
    rdata.map_values(|r: RData| r@)
}

impl View for Response {
    type V = ResponseView;

    open spec fn view(&self) -> ResponseView {
        ResponseView {
            response_code: self.response_code,
            authoritative: self.authoritative,
            answers: records_view(self.answers@),
        }
    }
}

impl Request {
    /// Whether the request is a standard forward lookup.
    pub open spec fn is_query(&self) -> bool {
        self.op_code == OpCode::Query && self.message_type == MessageType::Query
    }
}

} // verus!
