//! What arrives off a connection, and what each line read off it asks for.

use crate::error::Error;
use crate::error::ErrorModel;
use crate::wire::Line;
use crate::wire::LineModel;
use vstd::prelude::*;

verus! {

/// One Stream that arrived, and where it came from.
#[derive(Clone, Debug, PartialEq, Eq)]
pub struct Arrived {
    pub origin_uri: String,
    pub bytes: Vec<u8>,
}

/// A Stream with its origin and bytes as sequences.
pub struct ArrivedModel {
    pub origin_uri: Seq<char>,
    pub bytes: Seq<u8>,
}

impl View for Arrived {
    type V = ArrivedModel;

    open spec fn view(&self) -> ArrivedModel {
        ArrivedModel { origin_uri: self.origin_uri@, bytes: self.bytes@ }
    }
}

impl Arrived {
    /// `bytes`, which arrived from `origin_uri`.
    pub fn new(origin_uri: String, bytes: Vec<u8>) -> (res: Self)
        ensures
            res@ == (ArrivedModel { origin_uri: origin_uri@, bytes: bytes@ }),
    {
        Arrived { origin_uri, bytes }
    }
}

/// What a line that was read asks for: write `reply`, where there is one, then
/// be done with `result`, or where there is none read on.
pub struct Step<T> {
    pub reply: Option<Line>,
    pub result: Option<T>,
}

/// A step with its reply and result as models.
pub struct StepModel<T> {
    pub reply: Option<LineModel>,
    pub result: Option<T>,
}

/// A line that may be absent, as a model.
pub open spec fn line_or_none(line: Option<Line>) -> Option<LineModel> {
    match line {
        Some(line) => Some(line@),
        None => None,
    }
}

/// A Stream, or none because the peer closed, or an error, as models.
pub open spec fn arrival(res: Result<Option<Arrived>, Error>) -> Result<
    Option<ArrivedModel>,
    ErrorModel,
> {
    match res {
        Ok(Some(arrived)) => Ok(Some(arrived@)),
        Ok(None) => Ok(None),
        Err(error) => Err(error@),
    }
}

/// A step towards a Stream, as a model.
pub open spec fn arrival_step(step: Step<Result<Option<Arrived>, Error>>) -> StepModel<
    Result<Option<ArrivedModel>, ErrorModel>,
> {
    StepModel {
        reply: line_or_none(step.reply),
        result: match step.result {
            Some(res) => Some(arrival(res)),
            None => None,
        },
    }
}

impl<T> Step<T> {
    /// Read on.
    pub fn on() -> (res: Self)
        ensures
            res.reply is None,
            res.result is None,
    {
        Step { reply: None, result: None }
    }

    /// Write `line`, then read on.
    pub fn reply(line: Line) -> (res: Self)
        ensures
            res.reply == Some(line),
            res.result is None,
    {
        Step { reply: Some(line), result: None }
    }

    /// Be done with `result`.
    pub fn done(result: T) -> (res: Self)
        ensures
            res.reply is None,
            res.result == Some(result),
    {
        Step { reply: None, result: Some(result) }
    }
}

} // verus!
