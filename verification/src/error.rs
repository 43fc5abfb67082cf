//! The errors that the scheduler reports.

use vstd::prelude::*;
use vstd::string::StringExecFns;
use crate::tasks::ResponseError;

verus! {

/// What can go wrong in the scheduler.
#[derive(Debug, PartialEq, Eq)]
pub enum Error {
    /// The disk failed while a file of the queue or of an update was handled.
    IoError,
    /// The transactional store refused an operation.
    KvError,
    /// An invariant of the queue does not hold: for instance, a table lists
    /// an id that has no record.
    CorruptedTaskQueue,
    /// No index has this name.
    IndexNotFound(String),
    /// An index with this name exists already.
    IndexAlreadyExists(String),
    /// The query cannot be answered.
    InvalidQuery,
    /// An update file could not be read.
    PayloadError,
    /// The index engine failed while it ran a batch; the text is its message.
    BatchExecutionError(String),
}

/// The view of an [`Error`].
pub enum ErrorView {
    IoError,
    KvError,
    CorruptedTaskQueue,
    IndexNotFound(Seq<char>),
    IndexAlreadyExists(Seq<char>),
    InvalidQuery,
    PayloadError,
    BatchExecutionError(Seq<char>),
}

impl View for Error {
    type V = ErrorView;

    open spec fn view(&self) -> ErrorView {
        match *self {
            Error::IoError => ErrorView::IoError,
            Error::KvError => ErrorView::KvError,
            Error::CorruptedTaskQueue => ErrorView::CorruptedTaskQueue,
            Error::IndexNotFound(name) => ErrorView::IndexNotFound(name@),
            Error::IndexAlreadyExists(name) => ErrorView::IndexAlreadyExists(name@),
            Error::InvalidQuery => ErrorView::InvalidQuery,
            Error::PayloadError => ErrorView::PayloadError,
            Error::BatchExecutionError(message) => ErrorView::BatchExecutionError(message@),
        }
    }
}

impl DeepView for Error {
    type V = ErrorView;

    open spec fn deep_view(&self) -> ErrorView {
        self@
    }
}

impl ErrorView {
    /// The sentence that describes the error.
    pub open spec fn message(self) -> Seq<char> {
        match self {
            ErrorView::IoError => "An I/O error occurred."@,
            ErrorView::KvError => "The task store refused the operation."@,
            ErrorView::CorruptedTaskQueue => "Corrupted task queue."@,
            ErrorView::IndexNotFound(name) => "Index `"@ + name + "` not found."@,
            ErrorView::IndexAlreadyExists(name) => "Index `"@ + name + "` already exists."@,
            ErrorView::InvalidQuery => "Invalid query."@,
            ErrorView::PayloadError => "The update file could not be read."@,
            ErrorView::BatchExecutionError(message) => message,
        }
    }

    /// The short name by which clients tell the errors apart.
    pub open spec fn code(self) -> Seq<char> {
        match self {
            ErrorView::IndexNotFound(_) => "index_not_found"@,
            ErrorView::IndexAlreadyExists(_) => "index_already_exists"@,
            ErrorView::InvalidQuery => "bad_request"@,
            _ => "internal"@,
        }
    }

    /// Whether the client caused the error (`invalid_request`) or the
    /// service did (`internal`).
    pub open spec fn caused_by_request(self) -> bool {
        self is IndexNotFound || self is IndexAlreadyExists || self is InvalidQuery
    }

    /// The error as a task records it.
    pub open spec fn response(self) -> crate::tasks::ResponseErrorView {
        crate::tasks::ResponseErrorView {
            message: self.message(),
            error_code: self.code(),
            error_type: if self.caused_by_request() {
                "invalid_request"@
            } else {
                "internal"@
            },
            error_link: "https://docs.meilisearch.com/errors#"@ + self.code(),
        }
    }
}

impl Clone for Error {
    fn clone(&self) -> (copy: Self)
        ensures
            copy@ == self@,
    {
        match self {
            Error::IoError => Error::IoError,
            Error::KvError => Error::KvError,
            Error::CorruptedTaskQueue => Error::CorruptedTaskQueue,
            Error::IndexNotFound(name) => Error::IndexNotFound(name.clone()),
            Error::IndexAlreadyExists(name) => Error::IndexAlreadyExists(name.clone()),
            Error::InvalidQuery => Error::InvalidQuery,
            Error::PayloadError => Error::PayloadError,
            Error::BatchExecutionError(message) => Error::BatchExecutionError(message.clone()),
        }
    }
}

impl Error {
    /// The sentence that describes the error.
    pub fn to_string(&self) -> (text: String)
        ensures
            text@ == self@.message(),
    {
        match self {
            Error::IoError => "An I/O error occurred.".to_owned(),
            Error::KvError => "The task store refused the operation.".to_owned(),
            Error::CorruptedTaskQueue => "Corrupted task queue.".to_owned(),
            Error::IndexNotFound(name) => {
                let mut text = "Index `".to_owned();
                text.append(name.as_str());
                text.append("` not found.");
                text
            },
            Error::IndexAlreadyExists(name) => {
                let mut text = "Index `".to_owned();
                text.append(name.as_str());
                text.append("` already exists.");
                text
            },
            Error::InvalidQuery => "Invalid query.".to_owned(),
            Error::PayloadError => "The update file could not be read.".to_owned(),
            Error::BatchExecutionError(message) => message.clone(),
        }
    }

    /// The short name by which clients tell the errors apart.
    pub fn code(&self) -> (name: &'static str)
        ensures
            name@ == self@.code(),
    {
        match self {
            Error::IndexNotFound(_) => "index_not_found",
            Error::IndexAlreadyExists(_) => "index_already_exists",
            Error::InvalidQuery => "bad_request",
            _ => "internal",
        }
    }

    /// The error as a task records it: its sentence, its code, who caused
    /// it, and where the code is documented.
    pub fn to_response_error(&self) -> (response: ResponseError)
        ensures
            response@ == self@.response(),
    {
        let code = self.code();
        let error_type = match self {
            Error::IndexNotFound(_) => "invalid_request",
            Error::IndexAlreadyExists(_) => "invalid_request",
            Error::InvalidQuery => "invalid_request",
            _ => "internal",
        };
        let mut link = "https://docs.meilisearch.com/errors#".to_owned();
        link.append(code);
        ResponseError {
            message: self.to_string(),
            error_code: code.to_owned(),
            error_type: error_type.to_owned(),
            error_link: link,
        }
    }
}

} // verus!
