//! The errors of writing output and of packing the archive.
use vstd::prelude::*;

verus! {

/// Why an output file could not be written.
pub enum OutputError {
    /// An I/O failure, with its message.
    Io(String),
    /// Serialisation failed, with its message.
    Serialize(String),
    /// The output would exceed the 64 MiB limit.
    SizeLimit,
}

/// Why the archive could not be made.
pub enum ArchiveError {
    Io(String),
    Tar(String),
    Gzip(String),
}

impl OutputError {
    /// The message that describes the error.
    pub fn message(&self) -> (r: String)
        ensures
            self matches OutputError::Io(m) ==> r@ == seq!['I', '/', 'O', ' ', 'e', 'r', 'r', 'o', 'r', ':', ' '] + m@,
            self matches OutputError::Serialize(m) ==> r@ == seq![
                's', 'e', 'r', 'i', 'a', 'l', 'i', 'z', 'a', 't', 'i', 'o', 'n', ' ', 'f', 'a', 'i', 'l', 'e', 'd', ':', ' '
            ] + m@,
            self is SizeLimit ==> r@ == seq![
                'o', 'u', 't', 'p', 'u', 't', ' ', 'e', 'x', 'c', 'e', 'e', 'd', 's', ' ', '6', '4', ' ', 'M', 'i', 'B', ' ', 'l', 'i', 'm', 'i', 't'
            ],
    {
        proof {
            reveal_strlit("I/O error: ");
            reveal_strlit("serialization failed: ");
            reveal_strlit("output exceeds 64 MiB limit");
        }
        match self {
            OutputError::Io(m) => {
                let s = String::from_str("I/O error: ");
                s.concat(m.as_str())
            },
            OutputError::Serialize(m) => {
                let s = String::from_str("serialization failed: ");
                s.concat(m.as_str())
            },
            OutputError::SizeLimit => String::from_str("output exceeds 64 MiB limit"),
        }
    }
}

impl ArchiveError {
    /// The message that describes the error.
    pub fn message(&self) -> (r: String)
        ensures
            self matches ArchiveError::Io(m) ==> r@ == "I/O error: "@ + m@,
            self matches ArchiveError::Tar(m) ==> r@ == "tar error: "@ + m@,
            self matches ArchiveError::Gzip(m) ==> r@ == "gzip error: "@ + m@,
    {
        match self {
            ArchiveError::Io(m) => String::from_str("I/O error: ").concat(m.as_str()),
            ArchiveError::Tar(m) => String::from_str("tar error: ").concat(m.as_str()),
            ArchiveError::Gzip(m) => String::from_str("gzip error: ").concat(m.as_str()),
        }
    }
}

} // verus!
