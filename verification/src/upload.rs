//! Uploads: which name an uploaded file is stored under, where, and what is
//! answered. Reading the form and writing the file are left to the caller.

use vstd::prelude::*;
use crate::error::AppError;
use crate::summary::{is_white_space, white_space};
use crate::text::{append_decimal, chars_of, decimal};

verus! {

/// What a field of the upload form is, by its name.
#[derive(Debug, Clone, Copy, PartialEq, Eq)]
pub enum FieldKind {
    /// The field `file`: the uploaded file.
    File,
    /// The field `file_name`: a name to store the file under.
    FileName,
    /// Any other field; it is ignored.
    Other,
}

/// What was gathered from the fields of an upload form.
#[derive(Debug)]
pub struct UploadForm {
    /// Number of bytes of the uploaded file, if the form held one.
    pub file_length: Option<usize>,
    /// The name the file had at the sender's, if the form held a file.
    pub sender_name: Option<String>,
    /// The name asked for, if the form held one.
    pub custom_name: Option<String>,
}

/// Whether a text holds nothing but whitespace.
pub open spec fn is_blank(text: Seq<char>) -> bool {
    forall|i: int| 0 <= i < text.len() ==> white_space(#[trigger] text[i])
}

/// What a field named `name` is.
pub open spec fn kind_of(name: Seq<char>) -> FieldKind {
    if name == "file"@ {
        FieldKind::File
    } else if name == "file_name"@ {
        FieldKind::FileName
    } else {
        FieldKind::Other
    }
}

/// The path a file of the given name is stored at.
pub open spec fn stored_at(name: Seq<char>) -> Seq<char> {
    "post/"@ + name
}

/// The answer to an upload that was stored.
pub open spec fn saved_message(name: Seq<char>, length: nat) -> Seq<char> {
    "File `"@ + name + "` saved, "@ + decimal(length) + " bytes"@
}

/// The answer to an upload whose name is taken.
pub open spec fn exists_message(name: Seq<char>) -> Seq<char> {
    "File `"@ + name + "` already exists"@
}

/// The name a file is stored under: the name asked for unless it is missing
/// or blank, else the name the file had at the sender's. Without a file, or
/// without its name, there is none.
pub open spec fn stored_name(form: UploadForm) -> Option<Seq<char>> {
    match (form.file_length, form.sender_name) {
        (Some(_), Some(sent)) => match form.custom_name {
            Some(custom) => if is_blank(custom@) {
                Some(sent@)
            } else {
                Some(custom@)
            },
            None => Some(sent@),
        },
        _ => None,
    }
}

/// Why a form gives no name to store a file under.
pub open spec fn missing_message(form: UploadForm) -> Seq<char> {
    if form.file_length is None {
        "Missing file field"@
    } else {
        "Missing original file name"@
    }
}

/// Handles uploaded files.
#[derive(Debug, Clone, Copy)]
pub struct UploadService {}

impl UploadService {
    pub fn new() -> (service: UploadService) {
        UploadService {  }
    }

    /// What a field of the form is, by its name.
    pub fn classify(&self, name: &str) -> (kind: FieldKind)
        ensures
            kind == kind_of(name@),
    {
        let field = name.to_owned();
        if field == "file".to_owned() {
            FieldKind::File
        } else if field == "file_name".to_owned() {
            FieldKind::FileName
        } else {
            FieldKind::Other
        }
    }

    /// The name of the file that a `file` field carries; a field without one
    /// is an error.
    pub fn file_name_of(&self, file_name: Option<String>) -> (name: Result<String, AppError>)
        ensures
            match file_name {
                Some(given) => name == Ok::<String, AppError>(given),
                None => name matches Err(AppError::Internal(message)) && message@
                    == "File name is missing"@,
            },
    {
        match file_name {
            Some(given) => Ok(given),
            None => Err(AppError::Internal("File name is missing".to_owned())),
        }
    }

    /// Whether a text holds nothing but whitespace.
    pub fn blank(&self, text: &str) -> (blank: bool)
        ensures
            blank == is_blank(text@),
    {
        let chars = chars_of(text);
        let mut i: usize = 0;
        while i < chars.len()
            invariant
                i <= chars.len(),
                chars@ == text@,
                forall|k: int| 0 <= k < i ==> white_space(#[trigger] chars@[k]),
            decreases chars.len() - i,
        {
            if !is_white_space(chars[i]) {
                return false;
            }
            i += 1;
        }
        true
    }

    /// The name to store the file of a form under, or the error that the
    /// form holds no file or no name for it.
    pub fn final_name(&self, form: UploadForm) -> (name: Result<String, AppError>)
        ensures
            match name {
                Ok(chosen) => stored_name(form) == Some(chosen@),
                Err(error) => stored_name(form) is None && (error matches AppError::Internal(
                    message,
                ) && message@ == missing_message(form)),
            },
    {
        let UploadForm { file_length, sender_name, custom_name } = form;
        if file_length.is_none() {
            return Err(AppError::Internal("Missing file field".to_owned()));
        }
        let sent = match sender_name {
            Some(sent) => sent,
            None => {
                return Err(AppError::Internal("Missing original file name".to_owned()));
            },
        };
        match custom_name {
            Some(custom) => if self.blank(custom.as_str()) {
                Ok(sent)
            } else {
                Ok(custom)
            },
            None => Ok(sent),
        }
    }

    /// The path a file of the given name is stored at.
    pub fn target_path(&self, name: &str) -> (path: String)
        ensures
            path@ == stored_at(name@),
    {
        let mut path = "post/".to_owned();
        path.append(name);
        path
    }

    /// The answer to an upload: an error where a file of that name exists
    /// already, else the report that `length` bytes were stored.
    pub fn answer(&self, name: &str, exists: bool, length: usize) -> (answer: Result<
        String,
        AppError,
    >)
        ensures
            match answer {
                Ok(text) => !exists && text@ == saved_message(name@, length as nat),
                Err(error) => exists && (error matches AppError::Internal(message) && message@
                    == exists_message(name@)),
            },
    {
        if exists {
            let mut message = "File `".to_owned();
            message.append(name);
            message.append("` already exists");
            Err(AppError::Internal(message))
        } else {
            let mut text = "File `".to_owned();
            text.append(name);
            text.append("` saved, ");
            append_decimal(&mut text, length as u64);
            text.append(" bytes");
            Ok(text)
        }
    }
}

} // verus!
