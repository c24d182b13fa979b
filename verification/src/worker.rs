//! The course of one request on a connection: which record may follow
//! which, and what the executor does on each.

use crate::fastcgi::{Content, ContentData, HeaderType};
use vstd::prelude::*;

verus! {

/// How far a request has come.
#[derive(Debug, Clone, Copy, PartialEq, Eq, Structural)]
pub enum Status {
    /// Nothing has been received.
    Idle,
    /// The request has begun.
    Begin,
    /// Parameters have been received.
    Param,
    /// The parameters are complete.
    ParamEnd,
    /// A part of the body has been received.
    Stdin,
    /// The body is complete and the price list is being made.
    Work,
    /// The request has been answered.
    End,
}

/// A record as the executor sees it.
#[derive(Debug, Clone, Copy, PartialEq, Eq, Structural)]
pub enum Record {
    BeginRequest,
    AbortRequest,
    /// Parameters.
    Params,
    /// The empty record that ends the parameters.
    ParamsEnd,
    /// A part of the body.
    Stdin,
    /// The empty record that ends the body.
    StdinEnd,
    /// A record of parameters or of the body that holds something else.
    Malformed,
    /// A record of another type.
    Other,
}

/// How the executor sees a record of the given type with the given content.
pub open spec fn record_kind(t: HeaderType, content: Content) -> Record {
    match t {
        HeaderType::BeginRequest => Record::BeginRequest,
        HeaderType::AbortRequest => Record::AbortRequest,
        HeaderType::Params => match content {
            Content::Param(_) => Record::Params,
            Content::Empty => Record::ParamsEnd,
            Content::Stream(_) => Record::Malformed,
        },
        HeaderType::Stdin => match content {
            Content::Stream(_) => Record::Stdin,
            Content::Empty => Record::StdinEnd,
            Content::Param(_) => Record::Malformed,
        },
        _ => Record::Other,
    }
}

/// What the executor does with a record.
#[derive(Debug, Clone, Copy, PartialEq, Eq, Structural)]
pub enum Step {
    /// Keep the record that began the request and read on.
    Begun,
    /// Add the parameters to those received, a later value replacing an
    /// earlier one of the same name, and read on.
    AddParams,
    /// Append the bytes to the body and read on.
    AddStdin,
    /// Read on.
    Next,
    /// Make the price list, answer and close the connection.
    Run,
    /// Answer that the request was aborted and close the connection.
    Abort,
    /// Close the connection.
    Close,
}

/// The state after a record and what to do with it. A record that may not
/// follow leaves the state as it is and closes the connection.
pub open spec fn transition(status: Status, record: Record) -> (Status, Step) {
    match record {
        Record::BeginRequest => if status == Status::Idle {
            (Status::Begin, Step::Begun)
        } else {
            (status, Step::Close)
        },
        Record::AbortRequest => (status, Step::Abort),
        Record::Params => if status == Status::Begin || status == Status::Param {
            (Status::Param, Step::AddParams)
        } else {
            (status, Step::Close)
        },
        Record::ParamsEnd => if status == Status::Begin || status == Status::Param {
            (Status::ParamEnd, Step::Next)
        } else {
            (status, Step::Close)
        },
        Record::Stdin => if status == Status::Begin || status == Status::ParamEnd || status
            == Status::Stdin {
            (Status::Stdin, Step::AddStdin)
        } else {
            (status, Step::Close)
        },
        Record::StdinEnd => if status == Status::Begin || status == Status::ParamEnd || status
            == Status::Stdin {
            (Status::Work, Step::Run)
        } else {
            (status, Step::Close)
        },
        Record::Malformed => (status, Step::Close),
        Record::Other => (status, Step::Next),
    }
}

/// The place of a state in the course of a request.
pub open spec fn rank(status: Status) -> nat {
    match status {
        Status::Idle => 0,
        Status::Begin => 1,
        Status::Param => 2,
        Status::ParamEnd => 3,
        Status::Stdin => 4,
        Status::Work => 5,
        Status::End => 6,
    }
}

/// A request never goes back: no record leads to an earlier state, and the
/// price list is made only once the body is complete.
pub proof fn lemma_course_goes_forward(status: Status, record: Record)
    ensures
        rank(transition(status, record).0) >= rank(status),
        transition(status, record).1 == Step::Run ==> transition(status, record).0 == Status::Work
            && record == Record::StdinEnd,
        status == Status::Work || status == Status::End ==> transition(status, record).0
            == status,
{
}

/// The executor's view of a connection.
#[derive(Debug, Clone, Copy)]
pub struct Worker {
    /// A connection has been handed to the executor.
    pub start: bool,
    /// The service is stopping.
    pub stop: bool,
    pub status: Status,
}

impl Worker {
    /// An idle executor.
    pub fn new() -> (w: Worker)
        ensures
            !w.start,
            !w.stop,
            w.status == Status::Idle,
    {
        Worker { start: false, stop: false, status: Status::Idle }
    }

    /// How the executor sees a record of the given type with the given
    /// content.
    pub fn kind(t: HeaderType, data: &ContentData) -> (r: Record)
        ensures
            r == record_kind(t, data@),
    {
        match t {
            HeaderType::BeginRequest => Record::BeginRequest,
            HeaderType::AbortRequest => Record::AbortRequest,
            HeaderType::Params => match data {
                ContentData::Param(_) => Record::Params,
                ContentData::Empty => Record::ParamsEnd,
                ContentData::Stream(_) => Record::Malformed,
            },
            HeaderType::Stdin => match data {
                ContentData::Stream(_) => Record::Stdin,
                ContentData::Empty => Record::StdinEnd,
                ContentData::Param(_) => Record::Malformed,
            },
            _ => Record::Other,
        }
    }

    /// Takes a record: moves to the state that follows and says what to do.
    pub fn fastcgi_connection(&mut self, record: Record) -> (step: Step)
        ensures
            (final(self).status, step) == transition(old(self).status, record),
            final(self).start == old(self).start,
            final(self).stop == old(self).stop,
    {
        match record {
            Record::BeginRequest => {
                if self.status != Status::Idle {
                    return Step::Close;
                }
                self.status = Status::Begin;
                Step::Begun
            },
            Record::AbortRequest => Step::Abort,
            Record::Params | Record::ParamsEnd => {
                match self.status {
                    Status::Begin | Status::Param => {},
                    _ => {
                        return Step::Close;
                    },
                }
                if record == Record::Params {
                    self.status = Status::Param;
                    Step::AddParams
                } else {
                    self.status = Status::ParamEnd;
                    Step::Next
                }
            },
            Record::Stdin | Record::StdinEnd => {
                match self.status {
                    Status::Begin | Status::ParamEnd | Status::Stdin => {},
                    _ => {
                        return Step::Close;
                    },
                }
                if record == Record::Stdin {
                    self.status = Status::Stdin;
                    Step::AddStdin
                } else {
                    self.status = Status::Work;
                    Step::Run
                }
            },
            Record::Malformed => Step::Close,
            Record::Other => Step::Next,
        }
    }

    /// Marks the request as answered.
    pub fn answered(&mut self)
        ensures
            *final(self) == (Worker { status: Status::End, ..*old(self) }),
    {
        self.status = Status::End;
    }

    /// Readies the executor for the next connection.
    pub fn release(&mut self)
        ensures
            *final(self) == (Worker { start: false, status: Status::Idle, ..*old(self) }),
    {
        self.start = false;
        self.status = Status::Idle;
    }
}

} // verus!
