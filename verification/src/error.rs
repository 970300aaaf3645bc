//! Errors of the fallible operations, with the messages they are shown by.
use vstd::prelude::*;
use vstd::string::StringExecFns;

verus! {

/// Why a geodata operation failed.
#[derive(Debug)]
pub enum GeodotError {
    /// An error reported by the GDAL library, with its message.
    Gdal(String),
    /// An engine image could not be created from the raster data.
    ImageCreation(String),
    /// The raster or band format is not supported by the operation.
    UnsupportedFormat(String),
}

/// The message an error is shown by.
pub open spec fn error_message(e: GeodotError) -> Seq<char> {
    match e {
        GeodotError::Gdal(m) => "GDAL error: "@ + m@,
        GeodotError::ImageCreation(m) => "could not create Godot image: "@ + m@,
        GeodotError::UnsupportedFormat(m) => "unsupported format: "@ + m@,
    }
}

impl GeodotError {
    /// The message this error is shown by: a prefix naming the kind of
    /// failure, then the detail.
    pub fn message(&self) -> (r: String)
        ensures
            r@ == error_message(*self),
    {
        match self {
            GeodotError::Gdal(m) => {
                let mut s = String::from_str("GDAL error: ");
                s.append(m.as_str());
                s
            },
            GeodotError::ImageCreation(m) => {
                let mut s = String::from_str("could not create Godot image: ");
                s.append(m.as_str());
                s
            },
            GeodotError::UnsupportedFormat(m) => {
                let mut s = String::from_str("unsupported format: ");
                s.append(m.as_str());
                s
            },
        }
    }
}

} // verus!
