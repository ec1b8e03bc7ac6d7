use vstd::prelude::*;
use vstd::string::StringExecFns;

verus! {

/// A failure surfaced at the invocation boundary: filesystem trouble, text
/// that was not valid UTF-8 where valid text was required, or a failure of the
/// host integration layer (path resolution, window or transport handling).
///
/// Each variant carries the human-readable message reported by its cause.
#[derive(Debug, PartialEq, Eq)]
pub enum Error {
    Io(String),
    Utf8(String),
    Tauri(String),
}

impl Error {
    /// The discriminant tag a caller branches on, one per error kind.
    pub open spec fn spec_kind_tag(self) -> Seq<char> {
        match self {
            Error::Io(_) => "io"@,
            Error::Utf8(_) => "utf8"@,
            Error::Tauri(_) => "tauri"@,
        }
    }

    /// The message shown to a user: the cause's own text, behind a fixed
    /// prefix for encoding failures.
    pub open spec fn spec_message(self) -> Seq<char> {
        match self {
            Error::Io(m) => m@,
            Error::Utf8(m) => "Failed to parse as string: "@ + m@,
            Error::Tauri(m) => m@,
        }
    }

    pub fn kind_tag(&self) -> (tag: &'static str)
        ensures
            tag@ == self.spec_kind_tag(),
    {
        match self {
            Error::Io(_) => "io",
            Error::Utf8(_) => "utf8",
            Error::Tauri(_) => "tauri",
        }
    }

    pub fn message(&self) -> (msg: String)
        ensures
            msg@ == self.spec_message(),
    {
        match self {
            Error::Io(m) => m.clone(),
            Error::Utf8(m) => "Failed to parse as string: ".to_owned().concat(m.as_str()),
            Error::Tauri(m) => m.clone(),
        }
    }

    /// Law: the discriminant tags distinguish the error kinds — two errors
    /// carry the same tag exactly when they are of the same kind, so a caller
    /// can branch on the tag alone.
    pub proof fn lemma_kind_tags_distinguish(left: Error, right: Error)
        ensures
            (left.spec_kind_tag() == right.spec_kind_tag()) <==> ((left is Io && right is Io) || (
            left is Utf8 && right is Utf8) || (left is Tauri && right is Tauri)),
    {
        reveal_strlit("io");
        reveal_strlit("utf8");
        reveal_strlit("tauri");
        assert("io"@.len() == 2);
        assert("utf8"@.len() == 4);
        assert("tauri"@.len() == 5);
    }

    /// The two parts of the serialized form that crosses the invocation
    /// boundary: the discriminant tag, then the message. A caller can branch
    /// on the tag without matching on message text.
    pub fn serialize_parts(&self) -> (parts: (String, String))
        ensures
            parts.0@ == self.spec_kind_tag(),
            parts.1@ == self.spec_message(),
    {
        (self.kind_tag().to_owned(), self.message())
    }
}

} // verus!
