//! The boundary to the host process, modeled over plain values.
//!
//! The host hands the module counted strings and parameter cells through
//! its own ABI; the raw-pointer marshaling of that ABI belongs to the
//! unverified plumbing around this crate. Here each of those shapes is a
//! type of the library holding the validated value the logic reads, so
//! everything downstream of the marshaling is verified.

use vstd::prelude::*;

verus! {

/// The host's counted-string value, holding the validated text it
/// carries. The pointer-and-length marshaling that produces or consumes
/// one stays outside this crate.
#[allow(non_camel_case_types)]
pub struct str_ {
    text: String,
}

impl View for str_ {
    type V = Seq<char>;

    closed spec fn view(&self) -> Seq<char> {
        self.text@
    }
}

impl str_ {
    /// Wrap validated text in the host's string shape.
    pub fn new(text: String) -> (s: str_)
        ensures
            s@ == text@,
    {
        str_ { text }
    }

    /// The text as an ordinary string slice.
    pub fn as_str(&self) -> (r: &str)
        ensures
            r@ == self@,
    {
        self.text.as_str()
    }
}

/// Whether a host-assigned process rank denotes a worker process (ranks
/// below one belong to the host's own special processes).
pub fn is_worker_proc(rank: i32) -> (r: bool)
    ensures
        r == (rank >= 1),
{
    rank >= 1
}

/// Conversion into the host's string shape.
pub trait StrExt {
    /// The text the resulting host string will carry.
    spec fn host_text(&self) -> Seq<char>;

    /// Build the host's string shape around this value's text.
    fn as_opensips_str(&self) -> (r: str_)
        ensures
            r@ == self.host_text(),
    ;
}

impl StrExt for String {
    open spec fn host_text(&self) -> Seq<char> {
        self@
    }

    fn as_opensips_str(&self) -> (r: str_) {
        str_::new(self.clone())
    }
}

/// Which of the host's parameter kinds a module parameter registers as.
pub enum ParameterKind {
    Integer,
    Text,
}

/// A host-settable module parameter: a cell the host fills once, before
/// module initialization, and the module then reads.
pub trait ModuleParameter {
    /// The kind this parameter registers with the host as.
    spec fn spec_kind(&self) -> ParameterKind;

    /// Report the kind to register with the host.
    fn kind(&self) -> (r: ParameterKind)
        ensures
            r == self.spec_kind(),
    ;
}

/// An integer module parameter; zero means the host left it unset.
pub struct IntegerParameter {
    value: i32,
}

impl IntegerParameter {
    /// The cell as the host fills it.
    pub fn new(value: i32) -> (p: IntegerParameter)
        ensures
            p@ == value,
    {
        IntegerParameter { value }
    }

    /// The configured value, or `None` for the unset (zero) cell.
    pub fn get_value(&self) -> (r: Option<i32>)
        ensures
            match r {
                Some(v) => v == self@ && v != 0,
                None => self@ == 0,
            },
    {
        if self.value != 0 {
            Some(self.value)
        } else {
            None
        }
    }
}

impl View for IntegerParameter {
    type V = i32;

    closed spec fn view(&self) -> i32 {
        self.value
    }
}

impl ModuleParameter for IntegerParameter {
    open spec fn spec_kind(&self) -> ParameterKind {
        ParameterKind::Integer
    }

    fn kind(&self) -> (r: ParameterKind) {
        ParameterKind::Integer
    }
}

/// A text module parameter; the host may leave it unset.
pub struct TextParameter {
    value: Option<String>,
}

impl TextParameter {
    /// The cell as the host fills it, or left unset.
    pub fn new(value: Option<String>) -> (p: TextParameter)
        ensures
            match (value, p@) {
                (Some(v), Some(m)) => v@ == m,
                (None, None) => true,
                _ => false,
            },
    {
        TextParameter { value }
    }

    /// The configured text, if the host supplied any.
    pub fn get_value(&self) -> (r: Option<&String>)
        ensures
            match (r, self@) {
                (Some(v), Some(m)) => v@ == m,
                (None, None) => true,
                _ => false,
            },
    {
        match &self.value {
            Some(v) => Some(v),
            None => None,
        }
    }
}

impl View for TextParameter {
    type V = Option<Seq<char>>;

    closed spec fn view(&self) -> Option<Seq<char>> {
        match self.value {
            Some(v) => Some(v@),
            None => None,
        }
    }
}

impl ModuleParameter for TextParameter {
    open spec fn spec_kind(&self) -> ParameterKind {
        ParameterKind::Text
    }

    fn kind(&self) -> (r: ParameterKind) {
        ParameterKind::Text
    }
}

} // verus!
