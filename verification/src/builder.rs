//! Putting together what a call came to, field by field.

use crate::metrics::RequestStats;
use std::time::Duration;
use vstd::prelude::*;

verus! {

/// Why a builder could not build.
#[derive(Debug)]
pub enum RequestStatsBuilderError {
    /// The field of this name was given no value and has none by default.
    UninitializedField(String),
}

impl RequestStatsBuilderError {
    /// The error in words.
    pub fn message(&self) -> (text: String)
        ensures
            text@ == match self {
                RequestStatsBuilderError::UninitializedField(field) => "`"@ + field@
                    + "` must be initialized"@,
            },
    {
        match self {
            RequestStatsBuilderError::UninitializedField(field) => {
                let mut text = "`".to_owned();
                text.append(field.as_str());
                text.append("` must be initialized");
                text
            },
        }
    }
}

/// What a call came to, as far as it was given yet.
pub struct RequestStatsBuilder {
    is_success: Option<bool>,
    bytes_processed: Option<usize>,
    status: Option<String>,
    duration: Option<Duration>,
    operation_name: Option<Option<String>>,
    fatal_error: Option<bool>,
}

/// The fields of a builder, each with its value where it was given one.
pub struct Given {
    pub is_success: Option<bool>,
    pub bytes_processed: Option<usize>,
    pub status: Option<Seq<char>>,
    pub duration: Option<Duration>,
    pub operation_name: Option<Option<Seq<char>>>,
    pub fatal_error: Option<bool>,
}

/// The first field, in the order of their declaration, that has no value
/// and none by default. The name of the operation is none by default.
pub open spec fn missing_field(g: Given) -> Option<Seq<char>> {
    if g.is_success is None {
        Some("is_success"@)
    } else if g.bytes_processed is None {
        Some("bytes_processed"@)
    } else if g.status is None {
        Some("status"@)
    } else if g.duration is None {
        Some("duration"@)
    } else if g.fatal_error is None {
        Some("fatal_error"@)
    } else {
        None
    }
}

/// A builder without any value.
pub open spec fn nothing_given() -> Given {
    Given {
        is_success: None,
        bytes_processed: None,
        status: None,
        duration: None,
        operation_name: None,
        fatal_error: None,
    }
}

impl View for RequestStatsBuilder {
    type V = Given;

    closed spec fn view(&self) -> Given {
        Given {
            is_success: self.is_success,
            bytes_processed: self.bytes_processed,
            status: match self.status {
                Some(status) => Some(status@),
                None => None,
            },
            duration: self.duration,
            operation_name: match self.operation_name {
                Some(Some(name)) => Some(Some(name@)),
                Some(None) => Some(None),
                None => None,
            },
            fatal_error: self.fatal_error,
        }
    }
}

impl Default for RequestStatsBuilder {
    fn default() -> (builder: Self)
        ensures
            builder@ == nothing_given(),
    {
        RequestStatsBuilder {
            is_success: None,
            bytes_processed: None,
            status: None,
            duration: None,
            operation_name: None,
            fatal_error: None,
        }
    }
}

impl RequestStatsBuilder {
    /// Says whether the call succeeded.
    pub fn is_success(self, value: bool) -> (builder: Self)
        ensures
            builder@ == (Given { is_success: Some(value), ..self@ }),
    {
        let mut builder = self;
        builder.is_success = Some(value);
        builder
    }

    /// Says how many bytes the call processed.
    pub fn bytes_processed(self, value: usize) -> (builder: Self)
        ensures
            builder@ == (Given { bytes_processed: Some(value), ..self@ }),
    {
        let mut builder = self;
        builder.bytes_processed = Some(value);
        builder
    }

    /// Gives the status of the call.
    pub fn status(self, value: String) -> (builder: Self)
        ensures
            builder@ == (Given { status: Some(value@), ..self@ }),
    {
        let mut builder = self;
        builder.status = Some(value);
        builder
    }

    /// Says how long the call took.
    pub fn duration(self, value: Duration) -> (builder: Self)
        ensures
            builder@ == (Given { duration: Some(value), ..self@ }),
    {
        let mut builder = self;
        builder.duration = Some(value);
        builder
    }

    /// Names the operation of the call, or says that it has none.
    pub fn operation_name(self, value: Option<String>) -> (builder: Self)
        ensures
            builder@ == (Given {
                operation_name: Some(
                    match value {
                        Some(name) => Some(name@),
                        None => None,
                    },
                ),
                ..self@
            }),
    {
        let mut builder = self;
        builder.operation_name = Some(value);
        builder
    }

    /// Says whether the call ends the run.
    pub fn fatal_error(self, value: bool) -> (builder: Self)
        ensures
            builder@ == (Given { fatal_error: Some(value), ..self@ }),
    {
        let mut builder = self;
        builder.fatal_error = Some(value);
        builder
    }

    /// What the call came to, where every field has its value; else the
    /// first field that has none.
    pub fn build(self) -> (built: Result<RequestStats, RequestStatsBuilderError>)
        ensures
            match built {
                Ok(stats) => {
                    &&& missing_field(self@) is None
                    &&& self@.is_success == Some(stats.is_success)
                    &&& self@.bytes_processed == Some(stats.bytes_processed)
                    &&& self@.status == Some(stats.status@)
                    &&& self@.duration == Some(stats.duration)
                    &&& stats@.operation == match self@.operation_name {
                        Some(given) => given,
                        None => None,
                    }
                    &&& self@.fatal_error == Some(stats.fatal_error)
                },
                Err(RequestStatsBuilderError::UninitializedField(field)) => missing_field(self@)
                    == Some(field@),
            },
    {
        let is_success = match self.is_success {
            Some(value) => value,
            None => {
                return Err(RequestStatsBuilderError::UninitializedField("is_success".to_owned()));
            },
        };
        let bytes_processed = match self.bytes_processed {
            Some(value) => value,
            None => {
                return Err(
                    RequestStatsBuilderError::UninitializedField("bytes_processed".to_owned()),
                );
            },
        };
        let status = match self.status {
            Some(value) => value,
            None => {
                return Err(RequestStatsBuilderError::UninitializedField("status".to_owned()));
            },
        };
        let duration = match self.duration {
            Some(value) => value,
            None => {
                return Err(RequestStatsBuilderError::UninitializedField("duration".to_owned()));
            },
        };
        let fatal_error = match self.fatal_error {
            Some(value) => value,
            None => {
                return Err(RequestStatsBuilderError::UninitializedField("fatal_error".to_owned()));
            },
        };
        let operation_name = match self.operation_name {
            Some(value) => value,
            None => None,
        };
        Ok(
            RequestStats {
                is_success,
                bytes_processed,
                status,
                duration,
                operation_name,
                fatal_error,
            },
        )
    }
}

} // verus!
