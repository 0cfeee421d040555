//! Bridge between an embedding application and a storage engine's background
//! compaction process.
//!
//! The engine drives user-supplied compaction filters through opaque handles
//! and C-style callbacks; this crate provides the engine-agnostic core of that
//! bridge: the per-job context value, the filter and factory capability
//! contracts, a handle table that realizes the one-allocation-per-handle
//! ownership discipline, and a classifier that turns the engine's free-form
//! diagnostic strings into a closed set of error kinds.

use vstd::prelude::*;

pub mod compaction_filter;
pub mod compaction_filter_factory;
pub mod filter_table;

verus! {

/// The closed set of semantic error kinds derived from an engine diagnostic
/// message.
#[derive(Clone, Copy, Debug, PartialEq, Eq, Structural)]
pub enum ErrorKind {
    NotFound,
    Corruption,
    NotSupported,
    InvalidArgument,
    IOError,
    MergeInProgress,
    Incomplete,
    ShutdownInProgress,
    TimedOut,
    Aborted,
    Busy,
    Expired,
    TryAgain,
    CompactionTooLarge,
    ColumnFamilyDropped,
    Unknown,
}

/// A wrapper round a diagnostic string reported by the storage engine.
///
/// The message is authoritative; the [`ErrorKind`] classification is a view
/// derived from it on demand, never stored.
#[derive(Debug, Clone, PartialEq, Eq)]
pub struct Error {
    message: String,
}

/// Holds exactly when `i` is the position of the first `':'` in `m`, or
/// `m.len()` when `m` has no `':'` at all.
pub open spec fn is_first_colon(m: Seq<char>, i: int) -> bool {
    &&& 0 <= i <= m.len()
    &&& (forall|j: int| 0 <= j < i ==> m[j] != ':')
    &&& (i < m.len() ==> m[i] == ':')
}

/// The position of the first `':'` in `m`, or `m.len()` when there is none.
pub open spec fn first_colon(m: Seq<char>) -> int {
    choose|i: int| is_first_colon(m, i)
}

/// At most one position satisfies `is_first_colon`.
pub proof fn lemma_first_colon_unique(m: Seq<char>, i1: int, i2: int)
    requires
        is_first_colon(m, i1),
        is_first_colon(m, i2),
    ensures
        i1 == i2,
{
    if i1 < i2 {
        assert(m[i1] == ':');
        assert(m[i1] != ':');
    }
    if i2 < i1 {
        assert(m[i2] == ':');
        assert(m[i2] != ':');
    }
}

/// The part of `m` before its first `':'`: the whole of `m` when it has none.
pub open spec fn diagnostic_prefix(m: Seq<char>) -> Seq<char> {
    m.take(first_colon(m))
}

/// The error kind that a diagnostic prefix denotes: a fixed, case-sensitive
/// table of the engine's known message prefixes, with `Unknown` for every
/// other prefix (the empty one included).
pub open spec fn kind_of_prefix(p: Seq<char>) -> ErrorKind {
    if p == "NotFound"@ {
        ErrorKind::NotFound
    } else if p == "Corruption"@ {
        ErrorKind::Corruption
    } else if p == "Not implemented"@ {
        ErrorKind::NotSupported
    } else if p == "Invalid argument"@ {
        ErrorKind::InvalidArgument
    } else if p == "IO error"@ {
        ErrorKind::IOError
    } else if p == "Merge in progress"@ {
        ErrorKind::MergeInProgress
    } else if p == "Result incomplete"@ {
        ErrorKind::Incomplete
    } else if p == "Shutdown in progress"@ {
        ErrorKind::ShutdownInProgress
    } else if p == "Operation timed out"@ {
        ErrorKind::TimedOut
    } else if p == "Operation aborted"@ {
        ErrorKind::Aborted
    } else if p == "Resource busy"@ {
        ErrorKind::Busy
    } else if p == "Operation expired"@ {
        ErrorKind::Expired
    } else if p == "Operation failed. Try again."@ {
        ErrorKind::TryAgain
    } else if p == "Compaction too large"@ {
        ErrorKind::CompactionTooLarge
    } else if p == "Column family dropped"@ {
        ErrorKind::ColumnFamilyDropped
    } else {
        ErrorKind::Unknown
    }
}

/// The classification of a whole diagnostic message: the kind its prefix up
/// to (not including) the first `':'` denotes.
pub open spec fn classify(m: Seq<char>) -> ErrorKind {
    kind_of_prefix(diagnostic_prefix(m))
}

/// Classification reads nothing but the message: equal messages always yield
/// equal kinds.
pub proof fn lemma_classify_pure(m1: Seq<char>, m2: Seq<char>)
    requires
        m1 == m2,
    ensures
        classify(m1) == classify(m2),
{
}

impl View for Error {
    type V = Seq<char>;

    closed spec fn view(&self) -> Seq<char> {
        self.message@
    }
}

/// Character-for-character string equality.
fn str_eq(a: &str, b: &str) -> (r: bool)
    ensures
        r == (a@ == b@),
{
    let a_len = a.unicode_len();
    let b_len = b.unicode_len();
    if a_len != b_len {
        return false;
    }
    let mut i: usize = 0;
    while i < a_len
        invariant
            i <= a_len,
            a_len == a@.len(),
            b_len == b@.len(),
            a_len == b_len,
            forall|j: int| 0 <= j < i ==> a@[j] == b@[j],
        decreases a_len - i,
    {
        if a.get_char(i) != b.get_char(i) {
            return false;
        }
        i += 1;
    }
    proof {
        assert(a@ =~= b@);
    }
    true
}

impl Error {
    /// Wraps a diagnostic message reported by the engine.
    pub fn new(message: String) -> (e: Error)
        ensures
            e@ == message@,
    {
        Error { message }
    }

    /// Gives the raw diagnostic message up for the caller to keep.
    pub fn into_string(self) -> (s: String)
        ensures
            s@ == self@,
    {
        String::from(self)
    }

    /// Read access to the raw diagnostic message, for logging.
    pub fn message(&self) -> (s: &str)
        ensures
            s@ == self@,
    {
        self.message.as_str()
    }

    /// Parse the corresponding [`ErrorKind`] from the error message.
    pub fn kind(&self) -> (k: ErrorKind)
        ensures
            k == classify(self@),
    {
        let s: &str = self.message.as_str();
        let n = s.unicode_len();
        let mut i: usize = 0;
        while i < n && s.get_char(i) != ':'
            invariant
                i <= n,
                n == s@.len(),
                s@ == self@,
                forall|j: int| 0 <= j < i ==> s@[j] != ':',
            decreases n - i,
        {
            i += 1;
        }
        proof {
            assert(is_first_colon(s@, i as int));
            lemma_first_colon_unique(s@, i as int, first_colon(s@));
        }
        let prefix = s.substring_char(0, i);
        if str_eq(prefix, "NotFound") {
            ErrorKind::NotFound
        } else if str_eq(prefix, "Corruption") {
            ErrorKind::Corruption
        } else if str_eq(prefix, "Not implemented") {
            ErrorKind::NotSupported
        } else if str_eq(prefix, "Invalid argument") {
            ErrorKind::InvalidArgument
        } else if str_eq(prefix, "IO error") {
            ErrorKind::IOError
        } else if str_eq(prefix, "Merge in progress") {
            ErrorKind::MergeInProgress
        } else if str_eq(prefix, "Result incomplete") {
            ErrorKind::Incomplete
        } else if str_eq(prefix, "Shutdown in progress") {
            ErrorKind::ShutdownInProgress
        } else if str_eq(prefix, "Operation timed out") {
            ErrorKind::TimedOut
        } else if str_eq(prefix, "Operation aborted") {
            ErrorKind::Aborted
        } else if str_eq(prefix, "Resource busy") {
            ErrorKind::Busy
        } else if str_eq(prefix, "Operation expired") {
            ErrorKind::Expired
        } else if str_eq(prefix, "Operation failed. Try again.") {
            ErrorKind::TryAgain
        } else if str_eq(prefix, "Compaction too large") {
            ErrorKind::CompactionTooLarge
        } else if str_eq(prefix, "Column family dropped") {
            ErrorKind::ColumnFamilyDropped
        } else {
            ErrorKind::Unknown
        }
    }
}

impl From<Error> for String {
    fn from(e: Error) -> (s: String) {
        e.message
    }
}

impl vstd::std_specs::convert::FromSpecImpl<Error> for String {
    open spec fn obeys_from_spec() -> bool {
        true
    }

    closed spec fn from_spec(e: Error) -> String {
        e.message
    }
}

} // verus!
