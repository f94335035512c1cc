//! The file open dialog service of the demo application: which requests it
//! answers and how.
use crate::text::str_eq;
use vstd::prelude::*;

verus! {

/// What the service does with a request.
#[derive(Clone, Copy, PartialEq, Eq, Structural, Debug)]
pub enum FileDialogAction {
    /// Show the dialog over the parent window.
    OpenDialog,
    /// Answer the `no_window` error: the parent window does not exist.
    NoWindow,
    /// Answer the `invalid_method` error.
    InvalidMethod,
}

/// Shows a file open dialog when the application asks for one.
pub struct FileOpenDialogService {}

impl FileOpenDialogService {
    /// The service.
    pub fn new() -> (r: Self) {
        FileOpenDialogService {}
    }

    /// What to do with a call of `method`; `parent_window_found` tells
    /// whether the request's parent window exists.
    pub fn on_method_call(&self, method: &str, parent_window_found: bool) -> (r: FileDialogAction)
        ensures
            r == if method@ == "showFileOpenDialog"@ {
                if parent_window_found {
                    FileDialogAction::OpenDialog
                } else {
                    FileDialogAction::NoWindow
                }
            } else {
                FileDialogAction::InvalidMethod
            },
    {
        if str_eq(method, "showFileOpenDialog") {
            if parent_window_found {
                FileDialogAction::OpenDialog
            } else {
                FileDialogAction::NoWindow
            }
        } else {
            FileDialogAction::InvalidMethod
        }
    }
}

} // verus!
